//! Material and texture catalogs: indexed collections of material
//! definitions, the raster-index table binding indices to texture and
//! material names, and the decoded-texture cache with its average colors.

use vstd::prelude::*;
use vstd::string::*;
use crate::color::{DecodedImage, DecodedImageView, average_color, average_color_spec, decode_image,
    decoded_image};
use crate::errors::Error;
use crate::group::{EntryView, Group, find_entry};
use crate::strutil::{lower_of, lowercase, str_eq, str_eq_insensitive};
use crate::{ends_with, is_suffix_of};

verus! {

/// One material definition: its name (a case-insensitive identity) and the
/// name of the texture overlaid on it, possibly empty.
pub struct Material {
    name: String,
    texture_overlay: String,
}

/// The mathematical value of a `Material`.
pub ghost struct MaterialView {
    pub name: Seq<char>,
    pub texture_overlay: Seq<char>,
}

impl View for Material {
    type V = MaterialView;

    closed spec fn view(&self) -> MaterialView {
        MaterialView { name: self.name@, texture_overlay: self.texture_overlay@ }
    }
}

impl Material {
    /// Builds a material definition from its two names.
    pub fn new(name: String, texture_overlay: String) -> (m: Material)
        ensures
            m@.name == name@,
            m@.texture_overlay == texture_overlay@,
    {
        Material { name, texture_overlay }
    }

    /// The material's name.
    pub fn name(&self) -> (r: String)
        ensures
            r@ == self@.name,
    {
        self.name.clone()
    }

    /// The material's texture-overlay name; empty when none is defined.
    pub fn texture_overlay(&self) -> (r: String)
        ensures
            r@ == self@.texture_overlay,
    {
        self.texture_overlay.clone()
    }

    /// An owned copy with the same value.
    fn duplicate(&self) -> (r: Material)
        ensures
            r@ == self@,
    {
        Material { name: self.name.clone(), texture_overlay: self.texture_overlay.clone() }
    }
}

/// The first material whose lowercased name equals `key`, if any.
pub open spec fn first_material(mats: Seq<MaterialView>, key: Seq<char>) -> Option<MaterialView>
    decreases mats.len(),
{
    if mats.len() == 0 {
        None
    } else if lower_of(mats[0].name) == key {
        Some(mats[0])
    } else {
        first_material(mats.drop_first(), key)
    }
}

/// The ordered catalog of loaded materials: insertion order is archive load
/// order, duplicates across loads are kept, and an index stays stable for
/// the catalog's lifetime once the load that produced it returns.
pub struct MaterialMap {
    mats: Vec<Material>,
}

impl View for MaterialMap {
    type V = Seq<MaterialView>;

    closed spec fn view(&self) -> Seq<MaterialView> {
        self.mats@.map_values(|m: Material| m@)
    }
}

impl MaterialMap {
    /// An empty catalog.
    pub fn new() -> (r: MaterialMap)
        ensures
            r@ =~= Seq::<MaterialView>::empty(),
    {
        MaterialMap { mats: Vec::new() }
    }

    /// Appends one archive's parsed material definitions and reports how
    /// many arrived; earlier indices keep their materials.
    pub fn load(&mut self, parsed: Vec<Material>) -> (count: u32)
        requires
            parsed@.len() <= u32::MAX,
        ensures
            final(self)@ =~= old(self)@ + parsed@.map_values(|m: Material| m@),
            count == parsed@.len(),
    {
        let count = parsed.len() as u32;
        let mut parsed = parsed;
        self.mats.append(&mut parsed);
        count
    }

    /// How many materials the catalog holds.
    pub fn len(&self) -> (r: usize)
        ensures
            r == self@.len(),
    {
        self.mats.len()
    }

    /// Looks a material up by name, ignoring case; yields the first match in
    /// load order.
    pub fn get_material_by_name(&self, name: &str) -> (r: Option<Material>)
        ensures
            match r {
                Some(m) => first_material(self@, lower_of(name@)) == Some(m@),
                None => first_material(self@, lower_of(name@)) is None,
            },
    {
        let lname = lowercase(name);
        let ghost mats = self@;
        proof {
            assert(mats.skip(0) =~= mats);
        }
        let mut i: usize = 0;
        while i < self.mats.len()
            invariant
                mats == self@,
                self@ == self.mats@.map_values(|m: Material| m@),
                lname@ == lower_of(name@),
                i <= self.mats@.len(),
                first_material(mats, lname@) == first_material(mats.skip(i as int), lname@),
            decreases self.mats@.len() - i,
        {
            assert(mats.skip(i as int)[0] == mats[i as int]);
            let cand = lowercase(self.mats[i].name.as_str());
            if str_eq(cand.as_str(), lname.as_str()) {
                return Some(self.mats[i].duplicate());
            }
            proof {
                assert(mats.skip(i as int).drop_first() =~= mats.skip(i + 1));
            }
            i = i + 1;
        }
        proof {
            assert(mats.skip(i as int) =~= Seq::<MaterialView>::empty());
        }
        None
    }

    /// The crossmap step, run once after all materials and textures are
    /// loaded: every material without a texture overlay is bound to the
    /// texture that the raster-index table names for its material name.
    pub fn set_default_textures(&mut self, texture_map: &TextureMap)
        ensures
            final(self)@ =~= crossmap_spec(old(self)@, texture_map@.entries),
    {
        let ghost mats0 = self@;
        let ghost entries = texture_map@.entries;
        let mut out: Vec<Material> = Vec::new();
        let mut i: usize = 0;
        while i < self.mats.len()
            invariant
                mats0 == self@,
                self@ == self.mats@.map_values(|m: Material| m@),
                entries == texture_map@.entries,
                i <= self.mats@.len(),
                out@.map_values(|m: Material| m@) =~= crossmap_spec(mats0, entries).subrange(
                    0,
                    i as int,
                ),
            decreases self.mats@.len() - i,
        {
            let m = &self.mats[i];
            let new_m: Material = if m.texture_overlay.as_str().is_empty() {
                match texture_map.default_texture(m.name.as_str()) {
                    Some(t) => Material { name: m.name.clone(), texture_overlay: t },
                    None => m.duplicate(),
                }
            } else {
                m.duplicate()
            };
            assert(new_m@ == crossmap_one(mats0[i as int], entries));
            out.push(new_m);
            proof {
                assert(crossmap_spec(mats0, entries).subrange(0, i + 1) =~= crossmap_spec(
                    mats0,
                    entries,
                ).subrange(0, i as int).push(crossmap_one(mats0[i as int], entries)));
            }
            i = i + 1;
        }
        proof {
            assert(crossmap_spec(mats0, entries).subrange(0, i as int) =~= crossmap_spec(
                mats0,
                entries,
            ));
        }
        self.mats = out;
    }

    /// Looks a material up by catalog index.
    pub fn get_material_by_index(&self, index: u32) -> (r: Option<Material>)
        ensures
            match r {
                Some(m) => index < self@.len() && m@ == self@[index as int],
                None => index >= self@.len(),
            },
    {
        if (index as usize) < self.mats.len() {
            Some(self.mats[index as usize].duplicate())
        } else {
            None
        }
    }
}

/// The texture name of the first defined raster-index entry whose material
/// name equals `mat_name` up to case, if any.
pub open spec fn default_texture_for(
    entries: Seq<Option<TexMapEntryView>>,
    mat_name: Seq<char>,
) -> Option<Seq<char>>
    decreases entries.len(),
{
    if entries.len() == 0 {
        None
    } else {
        match entries[0] {
            Some(e) => if lower_of(e.material) == lower_of(mat_name) {
                Some(e.texture)
            } else {
                default_texture_for(entries.drop_first(), mat_name)
            },
            None => default_texture_for(entries.drop_first(), mat_name),
        }
    }
}

/// A material after the crossmap step: one without a texture overlay is
/// bound to the texture that the raster-index table names for its material
/// name; everything else is untouched.
pub open spec fn crossmap_one(m: MaterialView, entries: Seq<Option<TexMapEntryView>>) -> MaterialView {
    if m.texture_overlay.len() == 0 {
        match default_texture_for(entries, m.name) {
            Some(t) => MaterialView { name: m.name, texture_overlay: t },
            None => m,
        }
    } else {
        m
    }
}

/// The whole catalog after the crossmap step.
pub open spec fn crossmap_spec(
    mats: Seq<MaterialView>,
    entries: Seq<Option<TexMapEntryView>>,
) -> Seq<MaterialView> {
    mats.map_values(|m: MaterialView| crossmap_one(m, entries))
}

/// One parsed line of a texture-map definition: a raster index bound to a
/// texture name and a material name.
pub struct TexMapLine {
    pub index: u8,
    pub texture: String,
    pub material: String,
}

/// The mathematical value of a `TexMapLine`.
pub ghost struct TexMapLineView {
    pub index: u8,
    pub texture: Seq<char>,
    pub material: Seq<char>,
}

impl View for TexMapLine {
    type V = TexMapLineView;

    open spec fn view(&self) -> TexMapLineView {
        TexMapLineView { index: self.index, texture: self.texture@, material: self.material@ }
    }
}

/// One slot of the raster-index table.
struct TexMapEntry {
    texture: String,
    material: String,
}

/// The mathematical value of a raster-index slot.
pub ghost struct TexMapEntryView {
    pub texture: Seq<char>,
    pub material: Seq<char>,
}

impl View for TexMapEntry {
    type V = TexMapEntryView;

    closed spec fn view(&self) -> TexMapEntryView {
        TexMapEntryView { texture: self.texture@, material: self.material@ }
    }
}

/// What loading a texture-map definition reports: how many entries were
/// taken over, and whether the definition asks that the search for further
/// material archives continue.
pub struct LoadTextureMapResult {
    pub num_loaded: u32,
    pub overload_materials: bool,
    pub overload_textures: bool,
}

/// One cached texture: its lowercased name, quantized average color, and
/// decoded image.
struct Texture {
    name_lower: String,
    avg_color: u32,
    image: DecodedImage,
}

/// The mathematical value of a cached texture.
pub ghost struct TextureView {
    pub name_lower: Seq<char>,
    pub avg_color: u32,
    pub image: DecodedImageView,
}

impl View for Texture {
    type V = TextureView;

    closed spec fn view(&self) -> TextureView {
        TextureView { name_lower: self.name_lower@, avg_color: self.avg_color, image: self.image@ }
    }
}

/// The mathematical value of a `TextureMap`.
pub ghost struct TextureMapView {
    pub entries: Seq<Option<TexMapEntryView>>,
    pub textures: Seq<TextureView>,
}

/// The texture catalog: the 256-slot raster-index table (slot 0 reserved as
/// sky) and the cache of decoded textures keyed by lowercased name, never
/// evicted.
pub struct TextureMap {
    entries: Vec<Option<TexMapEntry>>,
    textures: Vec<Texture>,
}

impl View for TextureMap {
    type V = TextureMapView;

    closed spec fn view(&self) -> TextureMapView {
        TextureMapView {
            entries: self.entries@.map_values(
                |e: Option<TexMapEntry>|
                    match e {
                        Some(t) => Some(t@),
                        None => None,
                    },
            ),
            textures: self.textures@.map_values(|t: Texture| t@),
        }
    }
}

/// The raster-index table after one parsed definition is applied: each line
/// with index one or above overwrites its slot; slot zero stays reserved,
/// and untouched slots keep what they held.
pub open spec fn apply_lines(
    entries: Seq<Option<TexMapEntryView>>,
    lines: Seq<TexMapLineView>,
) -> Seq<Option<TexMapEntryView>>
    decreases lines.len(),
{
    if lines.len() == 0 {
        entries
    } else {
        let l = lines[0];
        let e1 = if 1 <= l.index {
            entries.update(l.index as int, Some(TexMapEntryView { texture: l.texture, material: l.material }))
        } else {
            entries
        };
        apply_lines(e1, lines.drop_first())
    }
}

/// How many lines of a parsed definition carry a usable index.
pub open spec fn count_valid(lines: Seq<TexMapLineView>) -> int
    decreases lines.len(),
{
    if lines.len() == 0 {
        0
    } else {
        (if 1 <= lines[0].index {
            1int
        } else {
            0int
        }) + count_valid(lines.drop_first())
    }
}

/// Applying a definition keeps the table's length and never clears a slot
/// that was already defined.
pub proof fn lemma_apply_lines_keeps(entries: Seq<Option<TexMapEntryView>>, lines: Seq<TexMapLineView>)
    requires
        entries.len() == 256,
    ensures
        apply_lines(entries, lines).len() == entries.len(),
        forall|i: int|
            0 <= i < entries.len() && entries[i] is Some ==> #[trigger] apply_lines(entries, lines)[i] is Some,
    decreases lines.len(),
{
    if lines.len() > 0 {
        let l = lines[0];
        let e1 = if 1 <= l.index {
            entries.update(l.index as int, Some(TexMapEntryView { texture: l.texture, material: l.material }))
        } else {
            entries
        };
        lemma_apply_lines_keeps(e1, lines.drop_first());
    }
}

/// A definition touches no slot outside the indices its lines name.
pub proof fn lemma_apply_lines_frame(
    entries: Seq<Option<TexMapEntryView>>,
    lines: Seq<TexMapLineView>,
    i: int,
)
    requires
        entries.len() == 256,
        0 <= i < entries.len(),
        forall|j: int| 0 <= j < lines.len() ==> (#[trigger] lines[j].index) as int != i,
    ensures
        apply_lines(entries, lines)[i] == entries[i],
    decreases lines.len(),
{
    if lines.len() > 0 {
        let l = lines[0];
        let e1 = if 1 <= l.index {
            entries.update(l.index as int, Some(TexMapEntryView { texture: l.texture, material: l.material }))
        } else {
            entries
        };
        assert(lines[0].index as int != i);
        assert forall|j: int| 0 <= j < lines.drop_first().len() implies (#[trigger] lines.drop_first()[j].index) as int != i by {
            assert(lines.drop_first()[j] == lines[j + 1]);
        }
        lemma_apply_lines_frame(e1, lines.drop_first(), i);
    }
}

/// `count_valid` never exceeds the number of lines.
proof fn lemma_count_valid_bound(lines: Seq<TexMapLineView>)
    ensures
        0 <= count_valid(lines) <= lines.len(),
    decreases lines.len(),
{
    if lines.len() > 0 {
        lemma_count_valid_bound(lines.drop_first());
    }
}

/// The first cached texture whose lowercased name equals `key`, if any.
pub open spec fn first_texture(texs: Seq<TextureView>, key: Seq<char>) -> Option<TextureView>
    decreases texs.len(),
{
    if texs.len() == 0 {
        None
    } else if texs[0].name_lower == key {
        Some(texs[0])
    } else {
        first_texture(texs.drop_first(), key)
    }
}

/// A recognized image-file suffix at the end of `name`: how many characters
/// it spans, if one matches.
pub open spec fn image_suffix_len(name: Seq<char>) -> Option<int> {
    if is_suffix_of(".png"@, name) || is_suffix_of(".jpg"@, name) || is_suffix_of(".bmp"@, name)
        || is_suffix_of(".PNG"@, name) || is_suffix_of(".JPG"@, name) || is_suffix_of(
        ".BMP"@,
        name,
    ) {
        Some(4)
    } else if is_suffix_of(".jpeg"@, name) || is_suffix_of(".JPEG"@, name) {
        Some(5)
    } else {
        None
    }
}

/// The texture cache that results from walking the archive's entries from
/// position `k` on: every entry with a recognized image suffix whose
/// stripped, lowercased name is not cached yet is read, decoded and added
/// with its average color; a failing decode fails the walk.
pub open spec fn load_textures_from(
    texs: Seq<TextureView>,
    all: Seq<EntryView>,
    k: int,
) -> Option<Seq<TextureView>>
    decreases all.len() - k,
{
    if k < 0 || k >= all.len() {
        Some(texs)
    } else {
        let e = all[k];
        match image_suffix_len(e.name) {
            None => load_textures_from(texs, all, k + 1),
            Some(sl) => {
                let key = lower_of(e.name.subrange(0, e.name.len() - sl));
                if first_texture(texs, key) is Some {
                    load_textures_from(texs, all, k + 1)
                } else {
                    match find_entry(all, e.name) {
                        None => None,
                        Some(data) => match decoded_image(data) {
                            None => None,
                            Some(d) => load_textures_from(
                                texs.push(
                                    TextureView {
                                        name_lower: key,
                                        avg_color: average_color_spec(d.0 as int, d.1 as int, d.2),
                                        image: DecodedImageView { width: d.0, height: d.1, rgba: d.2 },
                                    },
                                ),
                                all,
                                k + 1,
                            ),
                        },
                    }
                }
            },
        }
    }
}

/// Whenever some entry carries the sought name, `find_entry` yields bytes.
proof fn lemma_find_entry_exists(entries: Seq<EntryView>, name: Seq<char>, i: int)
    requires
        0 <= i < entries.len(),
        entries[i].name == name,
    ensures
        find_entry(entries, name) is Some,
    decreases entries.len(),
{
    if entries.len() > 0 && entries[0].name != name {
        assert(entries.drop_first()[i - 1] == entries[i]);
        lemma_find_entry_exists(entries.drop_first(), name, i - 1);
    }
}

impl TextureMap {
    /// The raster-index table always spans the full byte range.
    pub open spec fn wf(&self) -> bool {
        self@.entries.len() == 256
    }

    /// An empty catalog: all raster indices undefined, no cached textures.
    pub fn new() -> (r: TextureMap)
        ensures
            r.wf(),
            r@.textures =~= Seq::<TextureView>::empty(),
            forall|i: int| 0 <= i < 256 ==> r@.entries[i] is None,
    {
        let mut entries: Vec<Option<TexMapEntry>> = Vec::new();
        let mut i: usize = 0;
        while i < 256
            invariant
                i <= 256,
                entries@.len() == i,
                forall|j: int| 0 <= j < i ==> entries@[j] is None,
            decreases 256 - i,
        {
            entries.push(None);
            i = i + 1;
        }
        let r = TextureMap { entries, textures: Vec::new() };
        proof {
            assert(forall|i: int| 0 <= i < 256 ==> r@.entries[i] is None);
        }
        r
    }

    /// Takes one parsed texture-map definition over into the raster-index
    /// table. Defined indices overwrite their slot, everything else keeps
    /// its mapping, and the advisory overload flags are handed back with the
    /// count of usable lines.
    pub fn load_map(&mut self, lines: &Vec<TexMapLine>, overload_materials: bool, overload_textures: bool) -> (r:
        LoadTextureMapResult)
        requires
            old(self).wf(),
            lines@.len() <= u32::MAX,
        ensures
            final(self).wf(),
            final(self)@.textures == old(self)@.textures,
            final(self)@.entries == apply_lines(
                old(self)@.entries,
                lines@.map_values(|l: TexMapLine| l@),
            ),
            r.num_loaded == count_valid(lines@.map_values(|l: TexMapLine| l@)),
            r.overload_materials == overload_materials,
            r.overload_textures == overload_textures,
            forall|i: int|
                0 <= i < 256 && old(self)@.entries[i] is Some ==> #[trigger] final(self)@.entries[i] is Some,
    {
        let ghost lviews = lines@.map_values(|l: TexMapLine| l@);
        let ghost entries0 = self@.entries;
        proof {
            lemma_apply_lines_keeps(entries0, lviews);
            lemma_count_valid_bound(lviews);
            assert(lviews.skip(0) =~= lviews);
        }
        let mut count: u32 = 0;
        let mut i: usize = 0;
        while i < lines.len()
            invariant
                self.wf(),
                lviews == lines@.map_values(|l: TexMapLine| l@),
                lviews.len() <= u32::MAX,
                self@.textures == old(self)@.textures,
                i <= lviews.len(),
                apply_lines(entries0, lviews) == apply_lines(self@.entries, lviews.skip(i as int)),
                count_valid(lviews) == count + count_valid(lviews.skip(i as int)),
                count <= i,
            decreases lviews.len() - i,
        {
            proof {
                assert(lviews.skip(i as int)[0] == lviews[i as int]);
                assert(lviews.skip(i as int).drop_first() =~= lviews.skip(i + 1));
                lemma_count_valid_bound(lviews.skip(i + 1));
            }
            let ghost prev = self@.entries;
            let idx = lines[i].index;
            if idx >= 1 {
                let slot = Some(
                    TexMapEntry {
                        texture: lines[i].texture.clone(),
                        material: lines[i].material.clone(),
                    },
                );
                self.entries[idx as usize] = slot;
                proof {
                    assert(self@.entries =~= prev.update(
                        idx as int,
                        Some(
                            TexMapEntryView {
                                texture: lviews[i as int].texture,
                                material: lviews[i as int].material,
                            },
                        ),
                    ));
                }
                count = count + 1;
            }
            i = i + 1;
        }
        proof {
            assert(lviews.skip(i as int) =~= Seq::<TexMapLineView>::empty());
        }
        LoadTextureMapResult { num_loaded: count, overload_materials, overload_textures }
    }

    /// Walks the archive's entries from the start and caches every texture
    /// image found there: an entry whose name carries a recognized image
    /// suffix is stripped of it, and when no texture of that name (compared
    /// without case) is cached yet, its bytes are read, decoded, measured
    /// for their average color and cached. A failing decode fails the call;
    /// already-known names and other entries are passed over.
    pub fn load_textures(&mut self, group: &mut Group) -> (r: Result<(), Error>)
        requires
            old(self).wf(),
            old(group).wf(),
        ensures
            final(self).wf(),
            final(group).wf(),
            final(group)@.entries == old(group)@.entries,
            final(group)@.name == old(group)@.name,
            final(group)@.full_name == old(group)@.full_name,
            final(self)@.entries == old(self)@.entries,
            match r {
                Ok(_) => Some(final(self)@.textures) == load_textures_from(
                    old(self)@.textures,
                    old(group)@.entries,
                    0,
                ),
                Err(e) => load_textures_from(old(self)@.textures, old(group)@.entries, 0) is None
                    && (e matches Error::Msg(m) && m@ == "could not load texture image"@),
            },
    {
        group.rewind();
        let ghost all = group@.entries;
        let ghost texs0 = self@.textures;
        loop
            invariant
                self.wf(),
                group.wf(),
                group@.entries == all,
                group@.name == old(group)@.name,
                group@.full_name == old(group)@.full_name,
                self@.entries == old(self)@.entries,
                all == old(group)@.entries,
                texs0 == old(self)@.textures,
                load_textures_from(texs0, all, 0) == load_textures_from(
                    self@.textures,
                    all,
                    group@.cursor,
                ),
            decreases all.len() - group@.cursor,
        {
            let ghost k = group@.cursor;
            let ghost texs_in = self@.textures;
            match group.next_entry() {
                None => {
                    return Ok(());
                },
                Some(name) => {
                    proof {
                        reveal_strlit(".png");
                        reveal_strlit(".jpg");
                        reveal_strlit(".jpeg");
                        reveal_strlit(".bmp");
                        reveal_strlit(".PNG");
                        reveal_strlit(".JPG");
                        reveal_strlit(".JPEG");
                        reveal_strlit(".BMP");
                    }
                    let sl: usize = if ends_with(name.as_str(), ".png") || ends_with(
                        name.as_str(),
                        ".jpg",
                    ) || ends_with(name.as_str(), ".bmp") || ends_with(name.as_str(), ".PNG")
                        || ends_with(name.as_str(), ".JPG") || ends_with(name.as_str(), ".BMP") {
                        4
                    } else if ends_with(name.as_str(), ".jpeg") || ends_with(name.as_str(), ".JPEG") {
                        5
                    } else {
                        0
                    };
                    if sl == 0 {
                        proof {
                            assert(image_suffix_len(all[k].name) is None);
                        }
                    } else {
                        assert(image_suffix_len(all[k].name) == Some(sl as int));
                        assert(sl <= name@.len());
                        let name_len = name.as_str().unicode_len();
                        let texname = name.as_str().substring_char(0, name_len - sl);
                        let key = lowercase(texname);
                        assert(key@ == lower_of(all[k].name.subrange(0, all[k].name.len() - sl)));
                        match self.find_texture(key.as_str()) {
                            Some(_) => {
                            },
                            None => {
                                let data = match group.load_entry(name.as_str()) {
                                    Ok(d) => d,
                                    Err(_) => {
                                        proof {
                                            lemma_find_entry_exists(all, name@, k);
                                        }
                                        vstd::pervasive::unreached()
                                    },
                                };
                                match decode_image(&data) {
                                    Err(_) => {
                                        return Err(
                                            Error::Msg(
                                                String::from_str("could not load texture image"),
                                            ),
                                        );
                                    },
                                    Ok(img) => {
                                        let color = average_color(&img);
                                        self.textures.push(
                                            Texture { name_lower: key, avg_color: color, image: img },
                                        );
                                        proof {
                                            assert(self@.textures =~= texs_in.push(
                                                TextureView {
                                                    name_lower: lower_of(
                                                        all[k].name.subrange(
                                                            0,
                                                            all[k].name.len() - sl,
                                                        ),
                                                    ),
                                                    avg_color: color,
                                                    image: img@,
                                                },
                                            ));
                                        }
                                    },
                                }
                            },
                        }
                    }
                },
            }
        }
    }

    /// The texture name bound to a raster index.
    pub fn get_texture_name(&self, index: u32) -> (r: Option<String>)
        requires
            self.wf(),
        ensures
            match r {
                Some(s) => index < 256 && (self@.entries[index as int] matches Some(e) && s@
                    == e.texture),
                None => index >= 256 || self@.entries[index as int] is None,
            },
    {
        if index < 256 {
            match &self.entries[index as usize] {
                Some(e) => Some(e.texture.clone()),
                None => None,
            }
        } else {
            None
        }
    }

    /// The material name bound to a raster index.
    pub fn get_material_name(&self, index: u32) -> (r: Option<String>)
        requires
            self.wf(),
        ensures
            match r {
                Some(s) => index < 256 && (self@.entries[index as int] matches Some(e) && s@
                    == e.material),
                None => index >= 256 || self@.entries[index as int] is None,
            },
    {
        if index < 256 {
            match &self.entries[index as usize] {
                Some(e) => Some(e.material.clone()),
                None => None,
            }
        } else {
            None
        }
    }

    /// Whether a texture of this name, compared without case, is cached.
    pub fn has_texture(&self, name_lower: &str) -> (r: bool)
        ensures
            r == (first_texture(self@.textures, name_lower@) is Some),
    {
        self.find_texture(name_lower).is_some()
    }

    /// The quantized average color recorded for a texture name, compared
    /// without case; an unknown name yields zero.
    pub fn get_average_texture_color(&self, name: &str) -> (c: u32)
        ensures
            match first_texture(self@.textures, lower_of(name@)) {
                Some(t) => c == t.avg_color,
                None => c == 0,
            },
    {
        let key = lowercase(name);
        match self.find_texture(key.as_str()) {
            Some(i) => self.textures[i].avg_color,
            None => 0,
        }
    }

    /// Scans the raster-index table for the texture bound to a material
    /// name, compared without case.
    fn default_texture(&self, mat_name: &str) -> (r: Option<String>)
        ensures
            match r {
                Some(s) => default_texture_for(self@.entries, mat_name@) == Some(s@),
                None => default_texture_for(self@.entries, mat_name@) is None,
            },
    {
        let ghost entries = self@.entries;
        proof {
            assert(entries.skip(0) =~= entries);
        }
        let mut i: usize = 0;
        while i < self.entries.len()
            invariant
                entries == self@.entries,
                self@.entries.len() == self.entries@.len(),
                i <= self.entries@.len(),
                default_texture_for(entries, mat_name@) == default_texture_for(
                    entries.skip(i as int),
                    mat_name@,
                ),
            decreases self.entries@.len() - i,
        {
            assert(entries.skip(i as int)[0] == entries[i as int]);
            match &self.entries[i] {
                Some(e) => {
                    if str_eq_insensitive(e.material.as_str(), mat_name) {
                        return Some(e.texture.clone());
                    }
                },
                None => {
                },
            }
            proof {
                assert(entries.skip(i as int).drop_first() =~= entries.skip(i + 1));
            }
            i = i + 1;
        }
        proof {
            assert(entries.skip(i as int) =~= Seq::<Option<TexMapEntryView>>::empty());
        }
        None
    }

    /// Scans the cache for the first texture with this lowercased name.
    fn find_texture(&self, key: &str) -> (r: Option<usize>)
        ensures
            match r {
                Some(i) => i < self@.textures.len() && first_texture(self@.textures, key@) == Some(
                    self@.textures[i as int],
                ),
                None => first_texture(self@.textures, key@) is None,
            },
    {
        let ghost texs = self@.textures;
        proof {
            assert(texs.skip(0) =~= texs);
        }
        let mut i: usize = 0;
        while i < self.textures.len()
            invariant
                texs == self@.textures,
                self@.textures == self.textures@.map_values(|t: Texture| t@),
                i <= self.textures@.len(),
                first_texture(texs, key@) == first_texture(texs.skip(i as int), key@),
            decreases self.textures@.len() - i,
        {
            assert(texs.skip(i as int)[0] == texs[i as int]);
            if str_eq(self.textures[i].name_lower.as_str(), key) {
                return Some(i);
            }
            proof {
                assert(texs.skip(i as int).drop_first() =~= texs.skip(i + 1));
            }
            i = i + 1;
        }
        proof {
            assert(texs.skip(i as int) =~= Seq::<TextureView>::empty());
        }
        None
    }
}

} // verus!
