//! The render configuration and its orchestration: map-type inference from
//! file names, the builder-style render request, and the catalog-loading
//! sequence that follows asset resolution.

use vstd::prelude::*;
use vstd::string::*;
use crate::errors::Error;
use crate::group::{EntryView, Group};
use crate::mapgen::MapGen;
use crate::mattex::{Material, MaterialMap, MaterialView, TexMapEntryView, TexMapLine,
    TexMapLineView, TextureMap, TextureView, apply_lines, count_valid, crossmap_spec,
    load_textures_from};
use crate::scenpar::Scenpar;
use crate::strutil::{last_index_of, lemma_last_index_of, rfind_char};

verus! {

/// The two kinds of map description: a text landscape definition or a map
/// script.
#[derive(Clone, Copy, Debug, PartialEq, Eq, Structural)]
pub enum MapType {
    LandscapeTxt,
    MapC,
}

/// The file-name extension: the characters after the last dot, or the whole
/// name when it holds no dot.
pub open spec fn extension_of(name: Seq<char>) -> Seq<char> {
    match last_index_of(name, '.') {
        Some(i) => name.subrange(i + 1, name.len() as int),
        None => name,
    }
}

/// The map type a file name implies: extension `c` means a map script,
/// `txt` a text landscape, anything else is unrecognized.
pub open spec fn inferred_map_type(name: Seq<char>) -> Option<MapType> {
    if extension_of(name) == "c"@ {
        Some(MapType::MapC)
    } else if extension_of(name) == "txt"@ {
        Some(MapType::LandscapeTxt)
    } else {
        None
    }
}

/// Yields the extension of a file name.
fn extension(s: &str) -> (r: &str)
    ensures
        r@ == extension_of(s@),
{
    proof {
        lemma_last_index_of(s@, '.');
    }
    let n: usize = s.unicode_len();
    match rfind_char(s, '.') {
        Some(i) => s.substring_char(i + 1, n),
        None => s,
    }
}

/// Infers the map type from a file name.
pub fn infer_map_type(name: &str) -> (r: Option<MapType>)
    ensures
        r == inferred_map_type(name@),
{
    let ext = extension(name);
    proof {
        reveal_strlit("c");
        reveal_strlit("txt");
    }
    if crate::strutil::str_eq(ext, "c") {
        Some(MapType::MapC)
    } else if crate::strutil::str_eq(ext, "txt") {
        Some(MapType::LandscapeTxt)
    } else {
        None
    }
}

/// The mathematical value of a `RenderConfig`.
pub ghost struct RenderConfigView {
    pub map_type: Option<MapType>,
    pub filename: Option<Seq<char>>,
    pub source: Option<Seq<char>>,
    pub width: u32,
    pub height: u32,
    pub algo_script_path: Option<Seq<char>>,
    pub scenpar: Option<Seq<crate::scenpar::ScenparEntryView>>,
}

/// A render request under construction: what to render, at which size, and
/// with which scenario parameters.
pub struct RenderConfig {
    map_type: Option<MapType>,
    filename: Option<String>,
    source: Option<String>,
    width: u32,
    height: u32,
    algo_script_path: Option<String>,
    scenpar: Option<Scenpar>,
}

impl View for RenderConfig {
    type V = RenderConfigView;

    closed spec fn view(&self) -> RenderConfigView {
        RenderConfigView {
            map_type: self.map_type,
            filename: match self.filename {
                Some(ref s) => Some(s@),
                None => None,
            },
            source: match self.source {
                Some(ref s) => Some(s@),
                None => None,
            },
            width: self.width,
            height: self.height,
            algo_script_path: match self.algo_script_path {
                Some(ref s) => Some(s@),
                None => None,
            },
            scenpar: match self.scenpar {
                Some(ref s) => Some(s@),
                None => None,
            },
        }
    }
}

impl RenderConfig {
    /// Sets the map type; otherwise it is inferred from the file name.
    pub fn map_type(&mut self, map_type: MapType)
        ensures
            final(self)@ == (RenderConfigView { map_type: Some(map_type), ..old(self)@ }),
    {
        self.map_type = Some(map_type);
    }

    /// Sets the file name, used in error messages and for inference.
    pub fn filename(&mut self, filename: &str)
        ensures
            final(self)@ == (RenderConfigView { filename: Some(filename@), ..old(self)@ }),
    {
        self.filename = Some(filename.to_owned());
    }

    /// Sets the map source text; when unset, the file named by `filename`
    /// is read instead.
    pub fn source(&mut self, source: &str)
        ensures
            final(self)@ == (RenderConfigView { source: Some(source@), ..old(self)@ }),
    {
        self.source = Some(source.to_owned());
    }

    /// Sets the output map width; a map script may override the size.
    pub fn width(&mut self, width: u32)
        ensures
            final(self)@ == (RenderConfigView { width, ..old(self)@ }),
    {
        self.width = width;
    }

    /// Sets the output map height; a map script may override the size.
    pub fn height(&mut self, height: u32)
        ensures
            final(self)@ == (RenderConfigView { height, ..old(self)@ }),
    {
        self.height = height;
    }

    /// Sets the script path for script-algorithm landscape definitions.
    pub fn algo_script_path(&mut self, algo_script_path: &str)
        ensures
            final(self)@ == (RenderConfigView {
                algo_script_path: Some(algo_script_path@),
                ..old(self)@
            }),
    {
        self.algo_script_path = Some(algo_script_path.to_owned());
    }

    /// Sets the scenario parameters handed to map scripts.
    pub fn scenpar(&mut self, scenpar: &Scenpar)
        ensures
            final(self)@ == (RenderConfigView { scenpar: Some(scenpar@), ..old(self)@ }),
    {
        self.scenpar = Some(scenpar.duplicate());
    }

    /// The configured scenario parameters, if any.
    pub fn scenpar_ref(&self) -> (r: Option<&Scenpar>)
        ensures
            match r {
                Some(s) => self@.scenpar == Some(s@),
                None => self@.scenpar is None,
            },
    {
        self.scenpar.as_ref()
    }

    /// Infers the map type from the configured file name, as `render` does
    /// when no explicit type is set.
    pub fn autodetect_map_type(&self) -> (r: Result<MapType, Error>)
        ensures
            match r {
                Ok(t) => self@.filename matches Some(f) && inferred_map_type(f) == Some(t),
                Err(e) => {
                    &&& match self@.filename {
                        Some(f) => inferred_map_type(f) is None && (e matches
                        Error::MapTypeDetectionFailed(n) && n@ == f),
                        None => e matches Error::MapTypeDetectionFailed(n) && n@
                            == "<no filename>"@,
                    }
                },
            },
    {
        match &self.filename {
            Some(filename) => match infer_map_type(filename.as_str()) {
                Some(t) => Ok(t),
                None => Err(Error::MapTypeDetectionFailed(filename.clone())),
            },
            None => Err(Error::MapTypeDetectionFailed(String::from_str("<no filename>"))),
        }
    }

    /// What a render must do for this configuration.
    pub fn render_plan(&self) -> (r: Result<RenderPlan, Error>)
        ensures
            match r {
                Ok(p) => {
                    &&& match self@.map_type {
                        Some(t) => p.map_type == t,
                        None => self@.filename matches Some(f) && inferred_map_type(f) == Some(
                            p.map_type,
                        ),
                    }
                    &&& p@.filename == match self@.filename {
                        Some(f) => f,
                        None => "<no filename>"@,
                    }
                    &&& match self@.source {
                        Some(s) => p@.source == Some(s),
                        None => p@.source is None && self@.filename is Some,
                    }
                    &&& p.width == self@.width
                    &&& p.height == self@.height
                    &&& p@.algo_script_path == match self@.algo_script_path {
                        Some(a) => a,
                        None => Seq::<char>::empty(),
                    }
                },
                Err(e) => {
                    &&& self@.map_type is None && (match self@.filename {
                        Some(f) => inferred_map_type(f) is None,
                        None => true,
                    }) ==> (match self@.filename {
                        Some(f) => e matches Error::MapTypeDetectionFailed(n) && n@ == f,
                        None => e matches Error::MapTypeDetectionFailed(n) && n@
                            == "<no filename>"@,
                    })
                    &&& (self@.map_type is Some || (self@.filename matches Some(f)
                        && inferred_map_type(f) is Some)) ==> (self@.source is None
                        && self@.filename is None && (e matches Error::Msg(m) && m@
                        == "neither source nor filename set"@))
                },
            },
            r is Ok <==> (self@.map_type is Some || (self@.filename matches Some(f)
                && inferred_map_type(f) is Some)) && (self@.source is Some || self@.filename is Some),
    {
        let map_type = match self.map_type {
            Some(t) => t,
            None => match self.autodetect_map_type() {
                Ok(t) => t,
                Err(e) => {
                    return Err(e);
                },
            },
        };
        let filename: String = match &self.filename {
            Some(f) => f.clone(),
            None => String::from_str("<no filename>"),
        };
        let source: Option<String> = match &self.source {
            Some(s) => Some(s.clone()),
            None => {
                if self.filename.is_none() {
                    return Err(Error::Msg(String::from_str("neither source nor filename set")));
                }
                None
            },
        };
        let algo_script_path: String = match &self.algo_script_path {
            Some(a) => a.clone(),
            None => String::new(),
        };
        Ok(
            RenderPlan {
                map_type,
                filename,
                source,
                width: self.width,
                height: self.height,
                algo_script_path,
            },
        )
    }
}

/// The mathematical value of an `ArchiveLoad`.
pub ghost struct ArchiveLoadView {
    pub materials: Seq<MaterialView>,
    pub texmap: Seq<TexMapLineView>,
    pub overload_materials: bool,
    pub overload_textures: bool,
}

/// What the engine's parsers yield for one material archive: its material
/// definitions, its texture-map definition lines, and the definition's
/// overload flags.
pub struct ArchiveLoad {
    pub materials: Vec<Material>,
    pub texmap: Vec<TexMapLine>,
    pub overload_materials: bool,
    pub overload_textures: bool,
}

impl View for ArchiveLoad {
    type V = ArchiveLoadView;

    open spec fn view(&self) -> ArchiveLoadView {
        ArchiveLoadView {
            materials: self.materials@.map_values(|m: Material| m@),
            texmap: self.texmap@.map_values(|l: TexMapLine| l@),
            overload_materials: self.overload_materials,
            overload_textures: self.overload_textures,
        }
    }
}

/// The material definitions of the first `k` overlay archives, in order.
pub open spec fn overlay_materials(loads: Seq<ArchiveLoadView>, k: int) -> Seq<MaterialView>
    decreases k,
{
    if k <= 0 {
        Seq::empty()
    } else {
        overlay_materials(loads, k - 1) + loads[k - 1].materials
    }
}

/// The raster-index table after the texture-map definitions of all overlay
/// archives from position `k` on are applied, in order.
pub open spec fn apply_overlays(
    entries: Seq<Option<TexMapEntryView>>,
    loads: Seq<ArchiveLoadView>,
    k: int,
) -> Seq<Option<TexMapEntryView>>
    decreases loads.len() - k,
{
    if k < 0 || k >= loads.len() {
        entries
    } else {
        apply_overlays(apply_lines(entries, loads[k].texmap), loads, k + 1)
    }
}

/// The texture cache after the archives' images are loaded one archive
/// after the other, from position `k` on; a failing decode anywhere fails
/// the chain.
pub open spec fn load_chain(
    texs: Seq<TextureView>,
    groups: Seq<Seq<EntryView>>,
    k: int,
) -> Option<Seq<TextureView>>
    decreases groups.len() - k,
{
    if k < 0 || k >= groups.len() {
        Some(texs)
    } else {
        match load_textures_from(texs, groups[k], 0) {
            None => None,
            Some(t) => load_chain(t, groups, k + 1),
        }
    }
}

/// Growing the prefix of loaded overlays only adds materials.
proof fn lemma_overlay_materials_len(loads: Seq<ArchiveLoadView>, j: int, k: int)
    requires
        0 <= j <= k,
    ensures
        overlay_materials(loads, j).len() <= overlay_materials(loads, k).len(),
    decreases k - j,
{
    if j < k {
        lemma_overlay_materials_len(loads, j, k - 1);
    }
}

/// The ready-to-use render setup: the two catalogs and the engine
/// configuration. The engine supports one live initialization at a time, so
/// a process holds at most one value of this type.
pub struct Easy {
    pub material_map: MaterialMap,
    pub texture_map: TextureMap,
    pub mapgen: MapGen,
}

impl Easy {
    /// Creates the catalogs and the single engine initialization.
    pub fn new() -> (r: Easy)
        ensures
            r.material_map@ =~= Seq::<MaterialView>::empty(),
            r.texture_map.wf(),
            r.texture_map@.textures =~= Seq::<TextureView>::empty(),
            forall|i: int| 0 <= i < 256 ==> r.texture_map@.entries[i] is None,
            r.mapgen@.startup_player_count is None,
            r.mapgen@.startup_team_count is None,
    {
        Easy {
            material_map: MaterialMap::new(),
            texture_map: TextureMap::new(),
            mapgen: MapGen::init(),
        }
    }

    /// The entry point for rendering: a fresh configuration with the default
    /// output size.
    pub fn build(&self) -> (r: RenderConfig)
        ensures
            r@ == (RenderConfigView {
                map_type: None,
                filename: None,
                source: None,
                width: 200,
                height: 200,
                algo_script_path: None,
                scenpar: None,
            }),
    {
        RenderConfig {
            map_type: None,
            filename: None,
            source: None,
            width: 200,
            height: 200,
            algo_script_path: None,
            scenpar: None,
        }
    }

    /// Loads the resolved archives into the catalogs, in the fixed order:
    /// the texture-map definitions of the base archive and every overlay
    /// first, then the material definitions base-first, then the texture
    /// images base-first, then the base definition once more now that the
    /// images are known, and last the crossmap step. Zero materials over all
    /// archives, and a base definition with zero usable lines, each fail
    /// with the nothing-loaded kind; a texture image that cannot be decoded
    /// fails the whole load.
    #[verifier::loop_isolation(false)]
    pub fn load_archives(
        &mut self,
        base: &mut Group,
        base_load: ArchiveLoad,
        overlays: &mut Vec<Group>,
        overlay_loads: Vec<ArchiveLoad>,
    ) -> (r: Result<(), Error>)
        requires
            old(self).texture_map.wf(),
            old(base).wf(),
            forall|i: int| 0 <= i < old(overlays)@.len() ==> (#[trigger] old(overlays)@[i]).wf(),
            old(overlays)@.len() == overlay_loads@.len(),
            base_load.texmap@.len() <= u32::MAX,
            forall|i: int|
                0 <= i < overlay_loads@.len() ==> (#[trigger] overlay_loads@[i]).texmap@.len()
                    <= u32::MAX,
            base_load.materials@.len() + overlay_materials(
                overlay_loads@.map_values(|l: ArchiveLoad| l@),
                overlay_loads@.len() as int,
            ).len() <= u32::MAX,
        ensures
            final(self).texture_map.wf(),
            final(base).wf(),
            final(base)@.entries == old(base)@.entries,
            final(base)@.name == old(base)@.name,
            final(base)@.full_name == old(base)@.full_name,
            final(overlays)@.len() == old(overlays)@.len(),
            forall|i: int|
                0 <= i < old(overlays)@.len() ==> (#[trigger] final(overlays)@[i]).wf()
                    && final(overlays)@[i]@.entries == old(overlays)@[i]@.entries,
            final(self).mapgen == old(self).mapgen,
            ({
                let loads = overlay_loads@.map_values(|l: ArchiveLoad| l@);
                let mats_new = base_load@.materials + overlay_materials(loads, loads.len() as int);
                let groups = seq![old(base)@.entries].add(
                    old(overlays)@.map_values(|g: Group| g@.entries),
                );
                let entries1 = apply_overlays(
                    apply_lines(old(self).texture_map@.entries, base_load@.texmap),
                    loads,
                    0,
                );
                let entries2 = apply_lines(entries1, base_load@.texmap);
                let texres = load_chain(old(self).texture_map@.textures, groups, 0);
                &&& (r is Ok <==> mats_new.len() > 0 && texres is Some && count_valid(
                    base_load@.texmap,
                ) != 0)
                &&& r is Ok ==> final(self).material_map@ == crossmap_spec(
                    old(self).material_map@ + mats_new,
                    entries2,
                ) && final(self).texture_map@.entries == entries2 && Some(
                    final(self).texture_map@.textures,
                ) == texres
                &&& (r matches Err(e) ==> (if mats_new.len() == 0 {
                    e is NothingLoaded
                } else if texres is None {
                    e matches Error::Msg(m) && m@ == "could not load texture image"@
                } else {
                    e is NothingLoaded
                }))
            }),
    {
        let ghost loads = overlay_loads@.map_values(|l: ArchiveLoad| l@);
        let ghost blv = base_load@;
        let ghost m0 = self.material_map@;
        let ghost t0 = self.texture_map@.textures;
        let ghost e0 = self.texture_map@.entries;
        let ghost groups = seq![old(base)@.entries].add(
            old(overlays)@.map_values(|g: Group| g@.entries),
        );
        let ArchiveLoad {
            materials: base_mats,
            texmap: base_texmap,
            overload_materials: base_om,
            overload_textures: base_ot,
        } = base_load;

        // The walk loads each discovered archive's texture-map definition as
        // soon as it opens it: base first, then the overlays in order.
        let _ = self.texture_map.load_map(&base_texmap, base_om, base_ot);
        let ghost e1_base = self.texture_map@.entries;
        let mut i: usize = 0;
        while i < overlay_loads.len()
            invariant
                self.texture_map.wf(),
                loads == overlay_loads@.map_values(|l: ArchiveLoad| l@),
                forall|k: int|
                    0 <= k < overlay_loads@.len() ==> (#[trigger] overlay_loads@[k]).texmap@.len()
                        <= u32::MAX,
                i <= overlay_loads@.len(),
                self.texture_map@.textures == t0,
                apply_overlays(e1_base, loads, 0) == apply_overlays(
                    self.texture_map@.entries,
                    loads,
                    i as int,
                ),
                self.material_map == old(self).material_map,
                self.mapgen == old(self).mapgen,
            decreases overlay_loads@.len() - i,
        {
            assert(loads[i as int] == overlay_loads@[i as int]@);
            let _ = self.texture_map.load_map(
                &overlay_loads[i].texmap,
                overlay_loads[i].overload_materials,
                overlay_loads[i].overload_textures,
            );
            i = i + 1;
        }
        let ghost e1 = self.texture_map@.entries;
        proof {
            assert(e1 == apply_overlays(e1_base, loads, 0));
        }

        // Materials load base-first, then every overlay in discovery order.
        proof {
            lemma_overlay_materials_len(loads, 0, loads.len() as int);
        }
        let mut mat_sum: u32 = self.material_map.load(base_mats);
        let mut rest = overlay_loads;
        let ghost total = blv.materials + overlay_materials(loads, loads.len() as int);
        let ghost mut j: int = 0;
        while rest.len() > 0
            invariant
                0 <= j <= loads.len(),
                rest@.map_values(|l: ArchiveLoad| l@) =~= loads.skip(j),
                rest@.len() == loads.len() - j,
                self.material_map@ =~= m0 + blv.materials + overlay_materials(loads, j),
                mat_sum == blv.materials.len() + overlay_materials(loads, j).len(),
                blv.materials.len() + overlay_materials(loads, loads.len() as int).len()
                    <= u32::MAX,
                self.texture_map@.entries == e1,
                self.texture_map@.textures == t0,
                self.texture_map.wf(),
                self.mapgen == old(self).mapgen,
            decreases rest@.len(),
        {
            proof {
                lemma_overlay_materials_len(loads, j + 1, loads.len() as int);
                assert(loads.skip(j)[0] == loads[j]);
            }
            let ghost rest_before = rest@;
            let al = rest.remove(0);
            assert(al@ == loads[j]);
            let count = self.material_map.load(al.materials);
            proof {
                assert(overlay_materials(loads, j + 1) == overlay_materials(loads, j)
                    + loads[j].materials);
                assert(rest@ =~= rest_before.drop_first());
                assert forall|n: int|
                    0 <= n < rest@.len() implies rest@.map_values(|l: ArchiveLoad| l@)[n]
                    == #[trigger] loads.skip(j + 1)[n] by {
                    assert(rest@[n] == rest_before[n + 1]);
                    assert(rest_before.map_values(|l: ArchiveLoad| l@)[n + 1] == loads.skip(j)[n
                        + 1]);
                    assert(loads.skip(j)[n + 1] == loads[j + 1 + n]);
                }
                assert(rest@.map_values(|l: ArchiveLoad| l@) =~= loads.skip(j + 1));
                j = j + 1;
            }
            mat_sum = mat_sum + count;
        }
        proof {
            assert(loads.skip(j) =~= Seq::<ArchiveLoadView>::empty());
            assert(j == loads.len());
            assert(self.material_map@ =~= m0 + total);
        }
        if mat_sum == 0 {
            proof {
                assert(total.len() == 0);
            }
            return Err(Error::NothingLoaded);
        }
        assert(total.len() > 0);

        // Texture images load base-first, after a rewind of each cursor.
        base.rewind();
        proof {
            assert(groups[0] == old(base)@.entries);
        }
        match self.texture_map.load_textures(base) {
            Err(e) => {
                proof {
                    assert(load_chain(t0, groups, 0) is None);
                }
                return Err(e);
            },
            Ok(_) => {
            },
        }
        let mut k: usize = 0;
        while k < overlays.len()
            invariant
                self.texture_map.wf(),
                overlays@.len() == old(overlays)@.len(),
                forall|n: int|
                    0 <= n < overlays@.len() ==> (#[trigger] overlays@[n]).wf() && overlays@[n]@.entries
                        == old(overlays)@[n]@.entries && overlays@[n]@.name == old(
                        overlays,
                    )@[n]@.name && overlays@[n]@.full_name == old(overlays)@[n]@.full_name,
                k <= overlays@.len(),
                groups == seq![old(base)@.entries].add(
                    old(overlays)@.map_values(|g: Group| g@.entries),
                ),
                groups.len() == 1 + overlays@.len(),
                load_chain(t0, groups, 0) == load_chain(
                    self.texture_map@.textures,
                    groups,
                    1 + k as int,
                ),
                self.texture_map@.entries == e1,
                self.material_map@ =~= m0 + total,
                base.wf(),
                base@.entries == old(base)@.entries,
                base@.name == old(base)@.name,
                base@.full_name == old(base)@.full_name,
                self.mapgen == old(self).mapgen,
            decreases overlays@.len() - k,
        {
            proof {
                assert(groups[1 + k as int] == old(overlays)@[k as int]@.entries);
            }
            match self.texture_map.load_textures(&mut overlays[k]) {
                Err(e) => {
                    proof {
                        assert(load_chain(t0, groups, 0) is None);
                    }
                    return Err(e);
                },
                Ok(_) => {
                },
            }
            k = k + 1;
        }
        proof {
            assert(load_chain(t0, groups, 0) == Some(self.texture_map@.textures));
        }

        // The base definition loads a second time, now that the images are
        // known; nothing taken over is a hard error.
        let result = self.texture_map.load_map(&base_texmap, base_om, base_ot);
        if result.num_loaded == 0 {
            return Err(Error::NothingLoaded);
        }

        self.material_map.set_default_textures(&self.texture_map);
        Ok(())
    }
}

/// The mathematical value of a `RenderPlan`.
pub ghost struct RenderPlanView {
    pub map_type: MapType,
    pub filename: Seq<char>,
    pub source: Option<Seq<char>>,
    pub width: u32,
    pub height: u32,
    pub algo_script_path: Seq<char>,
}

/// A settled render request: the map type to dispatch on, the file name for
/// messages, the source text — or none, when it must be read from the file
/// name — and the remaining engine arguments.
pub struct RenderPlan {
    pub map_type: MapType,
    pub filename: String,
    pub source: Option<String>,
    pub width: u32,
    pub height: u32,
    pub algo_script_path: String,
}

impl View for RenderPlan {
    type V = RenderPlanView;

    open spec fn view(&self) -> RenderPlanView {
        RenderPlanView {
            map_type: self.map_type,
            filename: self.filename@,
            source: match self.source {
                Some(ref s) => Some(s@),
                None => None,
            },
            width: self.width,
            height: self.height,
            algo_script_path: self.algo_script_path@,
        }
    }
}

} // verus!
