//! Catalog entries, placements and the scene items built from them.
use vstd::prelude::*;

use crate::fields::{fields, split_fields, to_arr_3, to_arr_9, FormatError};
use crate::path::{count_slashes, depth_of, parent_id, parent_id_of, supplied_id, supplied_id_of};

verus! {

/// Orientation of an instance that gives none: the identity rotation.
pub const DEFAULT_ORIENTATION: &'static str = "1,0,0,0,1,0,0,0,1";

/// Translation of an instance that gives none.
pub const DEFAULT_TRANSLATION: &'static str = "0,0,0";

/// Revision given to every leaf's source.
pub const DEFAULT_SUPPLIED_REVISION_ID: &'static str = "1";

#[derive(Debug, Clone, Copy, PartialEq, Eq, Structural)]
pub struct Color3 {
    pub r: u8,
    pub g: u8,
    pub b: u8,
}

#[derive(Debug, Clone, Copy, PartialEq, Eq, Structural)]
pub struct ColorMaterial {
    pub ambient: Color3,
    pub diffuse: Color3,
    pub emissive: Color3,
    pub glossiness: u8,
    pub opacity: u8,
    pub specular: Color3,
}

/// One placement of a child component inside its parent.
#[derive(Debug, Clone, PartialEq)]
pub struct ComponentInstance {
    /// Position of the placed component in the catalog, in decimal.
    pub child_index: String,
    /// Path segment of the placed node, unique among its siblings.
    pub instance_id: String,
    /// Row-major 3x3 rotation as nine comma-separated decimals.
    pub orientation: Option<String>,
    /// Translation as three comma-separated decimals.
    pub translation: Option<String>,
    pub hide_self: bool,
    pub hide_child: bool,
}

/// A catalog entry: composite where it has instances, a leaf where it has
/// none and a geometry source, inert otherwise.
#[derive(Debug, Clone, PartialEq)]
pub struct Component {
    pub name: String,
    pub geometry_source: Option<String>,
    pub instances: Vec<ComponentInstance>,
}

/// The decimal fields of one instance's local transform, checked for count.
#[derive(Debug, Clone, PartialEq)]
pub struct Placement {
    pub orientation: [String; 9],
    pub translation: [String; 3],
}

pub struct PlacementView {
    pub orientation: Seq<Seq<char>>,
    pub translation: Seq<Seq<char>>,
}

impl View for Placement {
    type V = PlacementView;

    open spec fn view(&self) -> PlacementView {
        PlacementView {
            orientation: self.orientation@.map_values(|s: String| s@),
            translation: self.translation@.map_values(|s: String| s@),
        }
    }
}

#[derive(Debug, Clone, PartialEq)]
pub struct Source {
    pub file_name: String,
    pub supplied_part_id: String,
    pub supplied_revision_id: String,
}

pub struct SourceView {
    pub file_name: Seq<char>,
    pub supplied_part_id: Seq<char>,
    pub supplied_revision_id: Seq<char>,
}

impl View for Source {
    type V = SourceView;

    open spec fn view(&self) -> SourceView {
        SourceView {
            file_name: self.file_name@,
            supplied_part_id: self.supplied_part_id@,
            supplied_revision_id: self.supplied_revision_id@,
        }
    }
}

/// One flattened node. `placements` is the chain of local placements from
/// the root down to a leaf; their product is the leaf's world transform.
/// Composite nodes carry neither a source nor placements.
#[derive(Debug, Clone, PartialEq)]
pub struct SceneItem {
    pub depth: usize,
    pub material_override: Option<ColorMaterial>,
    pub parent_id: Option<String>,
    pub source: Option<Source>,
    pub supplied_id: String,
    pub placements: Option<Vec<Placement>>,
}

pub struct SceneItemView {
    pub depth: nat,
    pub material_override: Option<ColorMaterial>,
    pub parent_id: Option<Seq<char>>,
    pub source: Option<SourceView>,
    pub supplied_id: Seq<char>,
    pub placements: Option<Seq<PlacementView>>,
}

pub open spec fn chain_view(c: Seq<Placement>) -> Seq<PlacementView> {
    c.map_values(|p: Placement| p@)
}

pub open spec fn items_view(s: Seq<SceneItem>) -> Seq<SceneItemView> {
    s.map_values(|i: SceneItem| i@)
}

pub open spec fn opt_string_view(o: Option<String>) -> Option<Seq<char>> {
    match o {
        Some(s) => Some(s@),
        None => None,
    }
}

impl View for SceneItem {
    type V = SceneItemView;

    open spec fn view(&self) -> SceneItemView {
        SceneItemView {
            depth: self.depth as nat,
            material_override: self.material_override,
            parent_id: opt_string_view(self.parent_id),
            source: match self.source {
                Some(s) => Some(s@),
                None => None,
            },
            supplied_id: self.supplied_id@,
            placements: match self.placements {
                Some(c) => Some(chain_view(c@)),
                None => None,
            },
        }
    }
}

/// The item for the node reached by `path`, for a part named `part` of
/// revision `revision`, with geometry from `file` where it is a leaf.
pub open spec fn item_of(
    path: Seq<char>,
    part: Seq<char>,
    revision: Seq<char>,
    file: Option<Seq<char>>,
    placements: Option<Seq<PlacementView>>,
) -> SceneItemView {
    SceneItemView {
        depth: count_slashes(path),
        material_override: None,
        parent_id: parent_id_of(supplied_id_of(path)),
        source: match file {
            Some(f) => Some(
                SourceView { file_name: f, supplied_part_id: part, supplied_revision_id: revision },
            ),
            None => None,
        },
        supplied_id: supplied_id_of(path),
        placements,
    }
}

impl SceneItem {
    pub fn new(
        path_id: &str,
        part_name: &str,
        part_revision: &str,
        filename: Option<&str>,
        placements: Option<Vec<Placement>>,
    ) -> (r: SceneItem)
        ensures
            r@ == item_of(
                path_id@,
                part_name@,
                part_revision@,
                match filename {
                    Some(f) => Some(f@),
                    None => None,
                },
                match placements {
                    Some(c) => Some(chain_view(c@)),
                    None => None,
                },
            ),
    {
        let id = supplied_id(path_id);
        let parent = parent_id(id.as_str());
        let source = match filename {
            Some(f) => Some(
                Source {
                    file_name: String::from_str(f),
                    supplied_part_id: String::from_str(part_name),
                    supplied_revision_id: String::from_str(part_revision),
                },
            ),
            None => None,
        };
        SceneItem {
            depth: depth_of(path_id),
            material_override: None,
            parent_id: parent,
            source,
            supplied_id: id,
            placements,
        }
    }
}

/// The orientation text of an instance, the identity where it gives none.
pub open spec fn orientation_text(inst: ComponentInstance) -> Seq<char> {
    match inst.orientation {
        Some(o) => o@,
        None => DEFAULT_ORIENTATION@,
    }
}

/// The translation text of an instance, the origin where it gives none.
pub open spec fn translation_text(inst: ComponentInstance) -> Seq<char> {
    match inst.translation {
        Some(t) => t@,
        None => DEFAULT_TRANSLATION@,
    }
}

/// The placement of an instance: nine orientation fields and three
/// translation fields, or the first count that is wrong.
pub open spec fn placement_spec(inst: ComponentInstance) -> Result<PlacementView, FormatError> {
    let o = fields(orientation_text(inst));
    let t = fields(translation_text(inst));
    if o.len() != 9 {
        Err(FormatError::FieldCount { expected: 9, found: o.len() as usize })
    } else if t.len() != 3 {
        Err(FormatError::FieldCount { expected: 3, found: t.len() as usize })
    } else {
        Ok(PlacementView { orientation: o, translation: t })
    }
}

/// Splits an instance's orientation and translation into their fields.
pub fn placement_of(inst: &ComponentInstance) -> (r: Result<Placement, FormatError>)
    ensures
        match placement_spec(*inst) {
            Ok(p) => r matches Ok(q) && q@ == p,
            Err(e) => r == Err::<Placement, FormatError>(e),
        },
{
    let o_text: &str = match &inst.orientation {
        Some(o) => o.as_str(),
        None => DEFAULT_ORIENTATION,
    };
    let t_text: &str = match &inst.translation {
        Some(t) => t.as_str(),
        None => DEFAULT_TRANSLATION,
    };
    let o_fields = split_fields(o_text);
    let t_fields = split_fields(t_text);
    let ghost o_view = o_fields@;
    let ghost t_view = t_fields@;
    let orientation = match to_arr_9(o_fields) {
        Ok(a) => a,
        Err(e) => {
            return Err(e);
        },
    };
    let translation = match to_arr_3(t_fields) {
        Ok(a) => a,
        Err(e) => {
            return Err(e);
        },
    };
    let r = Placement { orientation, translation };
    assert(r@.orientation =~= fields(orientation_text(*inst)));
    assert(r@.translation =~= fields(translation_text(*inst)));
    Ok(r)
}

impl Placement {
    /// A copy of this placement.
    pub fn duplicate(&self) -> (r: Placement)
        ensures
            r@ == self@,
    {
        let o = &self.orientation;
        let t = &self.translation;
        let r = Placement {
            orientation: [
                o[0].clone(),
                o[1].clone(),
                o[2].clone(),
                o[3].clone(),
                o[4].clone(),
                o[5].clone(),
                o[6].clone(),
                o[7].clone(),
                o[8].clone(),
            ],
            translation: [t[0].clone(), t[1].clone(), t[2].clone()],
        };
        assert(r@.orientation =~= self@.orientation);
        assert(r@.translation =~= self@.translation);
        r
    }
}

/// A copy of a chain of placements.
pub fn copy_chain(chain: &Vec<Placement>) -> (r: Vec<Placement>)
    ensures
        chain_view(r@) == chain_view(chain@),
{
    let mut r: Vec<Placement> = Vec::new();
    let mut i: usize = 0;
    while i < chain.len()
        invariant
            i <= chain@.len(),
            r@.len() == i,
            forall|k: int| 0 <= k < i ==> #[trigger] r@[k]@ == chain@[k]@,
        decreases chain@.len() - i,
    {
        r.push(chain[i].duplicate());
        i = i + 1;
    }
    assert(chain_view(r@) =~= chain_view(chain@));
    r
}

/// An instance that gives neither orientation nor translation is placed by
/// the fields of the identity rotation and of the origin.
pub proof fn lemma_default_placement(inst: ComponentInstance)
    requires
        inst.orientation is None,
        inst.translation is None,
    ensures
        placement_spec(inst) == Ok::<PlacementView, FormatError>(
            PlacementView {
                orientation: seq![
                    seq!['1'],
                    seq!['0'],
                    seq!['0'],
                    seq!['0'],
                    seq!['1'],
                    seq!['0'],
                    seq!['0'],
                    seq!['0'],
                    seq!['1'],
                ],
                translation: seq![seq!['0'], seq!['0'], seq!['0']],
            },
        ),
{
    reveal_strlit("1,0,0,0,1,0,0,0,1");
    reveal_strlit("0,0,0");
    let o = DEFAULT_ORIENTATION@;
    let t = DEFAULT_TRANSLATION@;
    reveal_with_fuel(fields, 18);
    assert(fields(o) =~= seq![
        seq!['1'],
        seq!['0'],
        seq!['0'],
        seq!['0'],
        seq!['1'],
        seq!['0'],
        seq!['0'],
        seq!['0'],
        seq!['1'],
    ]);
    assert(fields(t) =~= seq![seq!['0'], seq!['0'], seq!['0']]);
}

} // verus!
