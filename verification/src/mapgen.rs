//! The rendered raster handed back by the map-generation engine, and its
//! materialization into a true-color image.
//!
//! A raster holds one byte per cell: the raster index. Index zero is
//! reserved and always materializes to the fixed sky color; any other index
//! resolves through the texture catalog, falling back to the material's
//! texture overlay when the texture itself is unknown.

use vstd::prelude::*;
use vstd::string::*;
use vstd::arithmetic::mul::lemma_mul_inequality;
use crate::mattex::{MaterialMap, MaterialView, TextureMap, TextureMapView, first_material,
    first_texture};
use crate::strutil::{first_index_of, find_char, lower_of, lowercase};

verus! {

/// The fixed sky color, as (red, green, blue).
pub open spec fn sky_color() -> (u8, u8, u8) {
    (100u8, 100u8, 255u8)
}

/// The name segment before the first dash: an animated texture names more
/// than one frame, separated by dashes, and display uses the first.
pub open spec fn first_segment(name: Seq<char>) -> Seq<char> {
    match first_index_of(name, '-') {
        Some(i) => name.subrange(0, i),
        None => name,
    }
}

/// The average color recorded for `key` (a lowercased name), or zero for an
/// unknown name.
pub open spec fn avg_color_of(texs: TextureMapView, key: Seq<char>) -> u32 {
    match first_texture(texs.textures, key) {
        Some(t) => t.avg_color,
        None => 0,
    }
}

/// The (r, g, b) channels of a packed `0xaarrggbb` color.
pub open spec fn rgb_of(color: u32) -> (u8, u8, u8) {
    ((color / 65536 % 256) as u8, (color / 256 % 256) as u8, (color % 256) as u8)
}

/// The color one raster index materializes to, given the two catalogs:
/// index zero is sky; an undefined index is sky; otherwise the pre-dash
/// segment of the entry's texture name is looked up without case, and when
/// it is unknown the material's texture overlay takes its place — unless the
/// material itself is unknown, which is sky again.
pub open spec fn mat_color_spec(idx: u8, mats: Seq<MaterialView>, texs: TextureMapView) -> (u8, u8, u8) {
    if idx == 0 {
        sky_color()
    } else {
        match texs.entries[idx as int] {
            None => sky_color(),
            Some(entry) => {
                let key = lower_of(first_segment(entry.texture));
                if first_texture(texs.textures, key) is Some {
                    rgb_of(avg_color_of(texs, key))
                } else {
                    match first_material(mats, lower_of(entry.material)) {
                        None => sky_color(),
                        Some(m) => rgb_of(avg_color_of(texs, lower_of(m.texture_overlay))),
                    }
                }
            },
        }
    }
}

/// Splits a packed color into its (r, g, b) channels.
fn unpack_rgb(color: u32) -> (c: (u8, u8, u8))
    ensures
        c == rgb_of(color),
{
    (((color / 65536) % 256) as u8, ((color / 256) % 256) as u8, (color % 256) as u8)
}

/// Resolves the color of one raster index against the catalogs.
pub fn get_mat_color(mat_idx: u8, materials: &MaterialMap, textures: &TextureMap) -> (c: (u8, u8, u8))
    requires
        textures.wf(),
    ensures
        c == mat_color_spec(mat_idx, materials@, textures@),
{
    if mat_idx == 0 {
        return (100, 100, 255);
    }
    match textures.get_texture_name(mat_idx as u32) {
        None => (100, 100, 255),
        Some(texture_name) => {
            proof {
                crate::strutil::lemma_first_index_of(texture_name@, '-');
            }
            let seg: &str = match find_char(texture_name.as_str(), '-') {
                Some(i) => texture_name.as_str().substring_char(0, i),
                None => texture_name.as_str(),
            };
            let key = lowercase(seg);
            if textures.has_texture(key.as_str()) {
                unpack_rgb(textures.get_average_texture_color(seg))
            } else {
                match textures.get_material_name(mat_idx as u32) {
                    None => vstd::pervasive::unreached(),
                    Some(mat_name) => match materials.get_material_by_name(mat_name.as_str()) {
                        None => (100, 100, 255),
                        Some(mat) => {
                            let overlay = mat.texture_overlay();
                            unpack_rgb(textures.get_average_texture_color(overlay.as_str()))
                        },
                    },
                }
            }
        },
    }
}

/// A true-color image: three bytes (r, g, b) per pixel, rows in order.
pub struct Image {
    pub width: u32,
    pub height: u32,
    pub rgb: Vec<u8>,
}

/// The pixel at `(x, y)` of an RGB byte buffer holds color `c`.
pub open spec fn pixel_is(rgb: Seq<u8>, x: int, y: int, width: int, c: (u8, u8, u8)) -> bool {
    rgb[3 * (y * width + x)] == c.0 && rgb[3 * (y * width + x) + 1] == c.1 && rgb[3 * (y * width
        + x) + 2] == c.2
}

/// The pixel at `(x, y)` holds the materialized color of its raster cell.
pub open spec fn cell_materialized(
    rgb: Seq<u8>,
    data: Seq<u8>,
    width: int,
    rowstride: int,
    mats: Seq<MaterialView>,
    texs: TextureMapView,
    x: int,
    y: int,
) -> bool {
    pixel_is(rgb, x, y, width, mat_color_spec(data[x + y * rowstride], mats, texs))
}

/// Turns a raster buffer into a true-color image: every cell's byte is
/// resolved against the catalogs, with a 256-slot per-call cache since a
/// render has far fewer distinct indices than pixels.
pub fn map_to_image(
    data: &Vec<u8>,
    width: u32,
    height: u32,
    rowstride: u32,
    materials: &MaterialMap,
    textures: &TextureMap,
) -> (img: Image)
    requires
        textures.wf(),
        rowstride >= width,
        3 * (width as int) * (height as int) <= usize::MAX,
        height > 0 ==> (height - 1) * (rowstride as int) + width <= data@.len(),
    ensures
        img.width == width,
        img.height == height,
        img.rgb@.len() == 3 * (width as int) * (height as int),
        forall|x: int, y: int|
            0 <= x < width && 0 <= y < height ==> #[trigger] cell_materialized(
                img.rgb@,
                data@,
                width as int,
                rowstride as int,
                materials@,
                textures@,
                x,
                y,
            ),
{
    let mut cache: Vec<Option<(u8, u8, u8)>> = Vec::new();
    let mut ci: usize = 0;
    while ci < 256
        invariant
            ci <= 256,
            cache@.len() == ci,
            forall|j: int| 0 <= j < ci ==> cache@[j] is None,
        decreases 256 - ci,
    {
        cache.push(None);
        ci = ci + 1;
    }
    let data_len: usize = data.len();
    let mut rgb: Vec<u8> = Vec::new();
    let mut y: u32 = 0;
    proof {
        assert(data@.len() <= usize::MAX);
    }
    proof {
        assert((3 * (width as int)) * (height as int) == 3 * ((width as int) * (height as int)))
            by (nonlinear_arith);
        assert(3 * (0int) * (width as int) == 0) by (nonlinear_arith);
    }
    while y < height
        invariant
            textures.wf(),
            rowstride >= width,
            3 * (width as int) * (height as int) <= usize::MAX,
            (3 * (width as int)) * (height as int) == 3 * ((width as int) * (height as int)),
            height > 0 ==> (height - 1) * (rowstride as int) + width <= data@.len(),
            data@.len() <= usize::MAX,
            y <= height,
            cache@.len() == 256,
            forall|j: int|
                0 <= j < 256 ==> (#[trigger] cache@[j] matches Some(c) ==> c == mat_color_spec(
                    j as u8,
                    materials@,
                    textures@,
                )),
            rgb@.len() == 3 * (y as int) * (width as int),
            forall|xx: int, yy: int|
                0 <= xx < width && 0 <= yy < y ==> #[trigger] cell_materialized(
                    rgb@,
                    data@,
                    width as int,
                    rowstride as int,
                    materials@,
                    textures@,
                    xx,
                    yy,
                ),
        decreases height - y,
    {
        proof {
            lemma_mul_inequality(y as int, height as int - 1, rowstride as int);
            lemma_mul_inequality(y as int + 1, height as int, width as int);
            lemma_mul_inequality(3 * (y as int + 1), 3 * (height as int), width as int);
            assert((3 * (y as int)) * (width as int) == 3 * ((y as int) * (width as int)))
                by (nonlinear_arith);
            assert((3 * (y as int + 1)) * (width as int) == 3 * ((y as int + 1) * (width as int))
                && (y as int + 1) * (width as int) == (y as int) * (width as int) + width
                && (3 * (height as int)) * (width as int) == 3 * ((width as int) * (height as int)))
                by (nonlinear_arith);
        }
        let row_base: usize = (y as usize) * (rowstride as usize);
        let mut x: u32 = 0;
        while x < width
            invariant
                textures.wf(),
                rowstride >= width,
                y < height,
                x <= width,
                row_base == (y as int) * (rowstride as int),
                (height - 1) * (rowstride as int) + width <= data@.len(),
                data@.len() <= usize::MAX,
                (y as int) * (rowstride as int) <= (height - 1) * (rowstride as int),
                3 * (width as int) * (height as int) <= usize::MAX,
                (3 * (y as int + 1)) * (width as int) <= 3 * (width as int) * (height as int),
                (3 * (y as int)) * (width as int) == 3 * ((y as int) * (width as int)),
                (3 * (y as int + 1)) * (width as int) == 3 * ((y as int + 1) * (width as int)),
                (y as int + 1) * (width as int) == (y as int) * (width as int) + width,
                cache@.len() == 256,
                forall|j: int|
                    0 <= j < 256 ==> (#[trigger] cache@[j] matches Some(c) ==> c == mat_color_spec(
                        j as u8,
                        materials@,
                        textures@,
                    )),
                rgb@.len() == 3 * ((y as int) * (width as int) + x as int),
                forall|xx: int, yy: int|
                    0 <= xx < width && 0 <= yy < y ==> #[trigger] cell_materialized(
                        rgb@,
                        data@,
                        width as int,
                        rowstride as int,
                        materials@,
                        textures@,
                        xx,
                        yy,
                    ),
                forall|xx: int|
                    0 <= xx < x ==> #[trigger] cell_materialized(
                        rgb@,
                        data@,
                        width as int,
                        rowstride as int,
                        materials@,
                        textures@,
                        xx,
                        y as int,
                    ),
            decreases width - x,
        {
            let idx: usize = row_base + (x as usize);
            let mat_idx: u8 = data[idx];
            let color: (u8, u8, u8) = match cache[mat_idx as usize] {
                Some(c) => c,
                None => {
                    let c = get_mat_color(mat_idx, materials, textures);
                    cache[mat_idx as usize] = Some(c);
                    c
                },
            };
            let ghost rgb_before = rgb@;
            rgb.push(color.0);
            rgb.push(color.1);
            rgb.push(color.2);
            proof {
                assert forall|xx: int, yy: int|
                    0 <= xx < width && 0 <= yy < y implies #[trigger] cell_materialized(
                    rgb@,
                    data@,
                    width as int,
                    rowstride as int,
                    materials@,
                    textures@,
                    xx,
                    yy,
                ) by {
                    lemma_mul_inequality(yy + 1, y as int, width as int);
                    assert((yy + 1) * (width as int) == yy * (width as int) + width)
                        by (nonlinear_arith);
                    assert(3 * (yy * (width as int) + xx) + 2 < rgb_before.len());
                    assert(cell_materialized(
                        rgb_before,
                        data@,
                        width as int,
                        rowstride as int,
                        materials@,
                        textures@,
                        xx,
                        yy,
                    ));
                }
                assert forall|xx: int| 0 <= xx < x + 1 implies #[trigger] cell_materialized(
                    rgb@,
                    data@,
                    width as int,
                    rowstride as int,
                    materials@,
                    textures@,
                    xx,
                    y as int,
                ) by {
                    if xx < x {
                        assert(3 * ((y as int) * (width as int) + xx) + 2 < rgb_before.len());
                        assert(cell_materialized(
                            rgb_before,
                            data@,
                            width as int,
                            rowstride as int,
                            materials@,
                            textures@,
                            xx,
                            y as int,
                        ));
                    } else {
                        assert(data@[xx + (y as int) * rowstride] == mat_idx);
                    }
                }
            }
            x = x + 1;
        }
        y = y + 1;
    }
    proof {
        assert((3 * (height as int)) * (width as int) == 3 * ((height as int) * (width as int))
            && (height as int) * (width as int) == (width as int) * (height as int) && (3 * (
        width as int)) * (height as int) == 3 * ((width as int) * (height as int)))
            by (nonlinear_arith);
    }
    Image { width, height, rgb }
}

/// The mathematical value of a `MapGen`.
pub ghost struct MapGenView {
    pub startup_player_count: Option<i32>,
    pub startup_team_count: Option<i32>,
}

/// The engine-side configuration this process holds. The engine supports
/// one live initialization at a time, so one value of this type stands for
/// that single initialization, with the startup counts handed to map
/// scripts.
pub struct MapGen {
    startup_player_count: Option<i32>,
    startup_team_count: Option<i32>,
}

impl View for MapGen {
    type V = MapGenView;

    closed spec fn view(&self) -> MapGenView {
        MapGenView {
            startup_player_count: self.startup_player_count,
            startup_team_count: self.startup_team_count,
        }
    }
}

impl MapGen {
    /// The single initialization, with no startup counts set yet.
    pub fn init() -> (r: MapGen)
        ensures
            r@.startup_player_count is None,
            r@.startup_team_count is None,
    {
        MapGen { startup_player_count: None, startup_team_count: None }
    }

    /// Sets what `GetStartupPlayerCount()` reports inside a map script.
    pub fn set_startup_player_count(&mut self, count: i32)
        ensures
            final(self)@.startup_player_count == Some(count),
            final(self)@.startup_team_count == old(self)@.startup_team_count,
    {
        self.startup_player_count = Some(count);
    }

    /// Sets what `GetStartupTeamCount()` reports inside a map script.
    pub fn set_startup_team_count(&mut self, count: i32)
        ensures
            final(self)@.startup_team_count == Some(count),
            final(self)@.startup_player_count == old(self)@.startup_player_count,
    {
        self.startup_team_count = Some(count);
    }
}

/// The mathematical value of a `MapGenHandle`.
pub ghost struct MapGenHandleView {
    pub width: u32,
    pub height: u32,
    pub rowstride: u32,
    pub map: Seq<u8>,
    pub bg: Seq<u8>,
    pub warnings: Option<Seq<char>>,
    pub script_output: Option<Seq<char>>,
}

/// One finished render: the foreground and background rasters the engine
/// produced, one byte per cell with rows `rowstride` apart, plus any
/// warning and script-output text.
pub struct MapGenHandle {
    width: u32,
    height: u32,
    rowstride: u32,
    map: Vec<u8>,
    bg: Vec<u8>,
    warnings: Option<String>,
    script_output: Option<String>,
}

impl View for MapGenHandle {
    type V = MapGenHandleView;

    closed spec fn view(&self) -> MapGenHandleView {
        MapGenHandleView {
            width: self.width,
            height: self.height,
            rowstride: self.rowstride,
            map: self.map@,
            bg: self.bg@,
            warnings: match self.warnings {
                Some(s) => Some(s@),
                None => None,
            },
            script_output: match self.script_output {
                Some(s) => Some(s@),
                None => None,
            },
        }
    }
}

impl MapGenHandle {
    /// Rows fit in both rasters and the pixel count stays addressable.
    pub open spec fn wf(&self) -> bool {
        &&& self@.rowstride >= self@.width
        &&& 3 * (self@.width as int) * (self@.height as int) <= usize::MAX
        &&& self@.height > 0 ==> (self@.height - 1) * (self@.rowstride as int) + self@.width
            <= self@.map.len() && (self@.height - 1) * (self@.rowstride as int) + self@.width
            <= self@.bg.len()
    }

    /// Wraps a finished render's buffers and diagnostics.
    pub fn new(
        width: u32,
        height: u32,
        rowstride: u32,
        map: Vec<u8>,
        bg: Vec<u8>,
        warnings: Option<String>,
        script_output: Option<String>,
    ) -> (h: MapGenHandle)
        requires
            rowstride >= width,
            3 * (width as int) * (height as int) <= usize::MAX,
            height > 0 ==> (height - 1) * (rowstride as int) + width <= map@.len() && (height - 1)
                * (rowstride as int) + width <= bg@.len(),
        ensures
            h.wf(),
            h@.width == width,
            h@.height == height,
            h@.rowstride == rowstride,
            h@.map == map@,
            h@.bg == bg@,
            h@.warnings == match warnings {
                Some(s) => Some(s@),
                None => None::<Seq<char>>,
            },
            h@.script_output == match script_output {
                Some(s) => Some(s@),
                None => None::<Seq<char>>,
            },
    {
        MapGenHandle { width, height, rowstride, map, bg, warnings, script_output }
    }

    /// The raster width in cells.
    pub fn width(&self) -> (r: u32)
        ensures
            r == self@.width,
    {
        self.width
    }

    /// The raster height in cells.
    pub fn height(&self) -> (r: u32)
        ensures
            r == self@.height,
    {
        self.height
    }

    /// How many bytes apart the raster's rows start.
    pub fn rowstride(&self) -> (r: u32)
        ensures
            r == self@.rowstride,
    {
        self.rowstride
    }

    /// Script warnings from parsing, linking and execution, if any.
    pub fn warnings(&self) -> (r: Option<String>)
        ensures
            match r {
                Some(s) => self@.warnings == Some(s@),
                None => self@.warnings is None,
            },
    {
        match &self.warnings {
            Some(s) => Some(s.clone()),
            None => None,
        }
    }

    /// Script output (logging calls) from executing the map script, if any.
    pub fn script_output(&self) -> (r: Option<String>)
        ensures
            match r {
                Some(s) => self@.script_output == Some(s@),
                None => self@.script_output is None,
            },
    {
        match &self.script_output {
            Some(s) => Some(s.clone()),
            None => None,
        }
    }

    /// Materializes the foreground raster against the catalogs.
    pub fn map_as_image(&self, materials: &MaterialMap, textures: &TextureMap) -> (img: Image)
        requires
            self.wf(),
            textures.wf(),
        ensures
            img.width == self@.width,
            img.height == self@.height,
            img.rgb@.len() == 3 * (self@.width as int) * (self@.height as int),
            forall|x: int, y: int|
                0 <= x < self@.width && 0 <= y < self@.height ==> #[trigger] cell_materialized(
                    img.rgb@,
                    self@.map,
                    self@.width as int,
                    self@.rowstride as int,
                    materials@,
                    textures@,
                    x,
                    y,
                ),
    {
        map_to_image(&self.map, self.width, self.height, self.rowstride, materials, textures)
    }

    /// Materializes the background raster against the catalogs.
    pub fn map_bg_as_image(&self, materials: &MaterialMap, textures: &TextureMap) -> (img: Image)
        requires
            self.wf(),
            textures.wf(),
        ensures
            img.width == self@.width,
            img.height == self@.height,
            img.rgb@.len() == 3 * (self@.width as int) * (self@.height as int),
            forall|x: int, y: int|
                0 <= x < self@.width && 0 <= y < self@.height ==> #[trigger] cell_materialized(
                    img.rgb@,
                    self@.bg,
                    self@.width as int,
                    self@.rowstride as int,
                    materials@,
                    textures@,
                    x,
                    y,
                ),
    {
        map_to_image(&self.bg, self.width, self.height, self.rowstride, materials, textures)
    }
}

/// The reserved raster index always materializes to the fixed sky color,
/// whatever the catalogs hold.
pub proof fn lemma_sky_reserved(mats: Seq<MaterialView>, texs: TextureMapView)
    ensures
        mat_color_spec(0u8, mats, texs) == sky_color(),
{
}

/// How a dashed texture name resolves: only the pre-dash segment counts;
/// when that segment is unknown, the material's texture overlay takes its
/// place; and when the material is unknown too, the result is the sky color.
pub proof fn lemma_dash_resolution(idx: u8, mats: Seq<MaterialView>, texs: TextureMapView)
    requires
        idx != 0,
        texs.entries[idx as int] is Some,
    ensures
        ({
            let entry = texs.entries[idx as int]->Some_0;
            let key = lower_of(first_segment(entry.texture));
            &&& (first_texture(texs.textures, key) is Some ==> mat_color_spec(idx, mats, texs)
                == rgb_of(avg_color_of(texs, key)))
            &&& (first_texture(texs.textures, key) is None ==> match first_material(
                mats,
                lower_of(entry.material),
            ) {
                Some(m) => mat_color_spec(idx, mats, texs) == rgb_of(
                    avg_color_of(texs, lower_of(m.texture_overlay)),
                ),
                None => mat_color_spec(idx, mats, texs) == sky_color(),
            })
        }),
{
}

} // verus!
