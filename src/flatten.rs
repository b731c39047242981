//! Depth-first flattening of a component catalog into scene items.
use vstd::prelude::*;

use crate::fields::{index_value, parse_index, FormatError};
use crate::scene::{
    chain_view, copy_chain, item_of, items_view, placement_of, placement_spec, Component,
    Placement, PlacementView, SceneItem, SceneItemView, DEFAULT_SUPPLIED_REVISION_ID,
};

verus! {

/// What a walk over the catalog yields: the items in pre-order, and every
/// placement it accepted on its way down, in the order it met them.
pub struct Walk {
    pub items: Seq<SceneItemView>,
    pub placements: Seq<PlacementView>,
}

pub open spec fn empty_walk() -> Walk {
    Walk { items: Seq::empty(), placements: Seq::empty() }
}

/// The walk `a`, then the walk `b`.
pub open spec fn join(a: Walk, b: Walk) -> Walk {
    Walk { items: a.items + b.items, placements: a.placements + b.placements }
}

/// `r` with the walk `done` in front of it.
pub open spec fn prepend(done: Walk, r: Result<Walk, FormatError>) -> Result<Walk, FormatError> {
    match r {
        Ok(w) => Ok(join(done, w)),
        Err(e) => Err(e),
    }
}

/// The path of the child placed under `path` with segment `id`.
pub open spec fn child_path(path: Seq<char>, id: Seq<char>) -> Seq<char> {
    path + seq!['/'] + id
}

/// The walk of the node for catalog entry `idx`, reached by `path` through
/// the placements `chain`, `depth` instances below the root.
///
/// A composite gives its own item, then the walk of each shown instance in
/// order; a leaf gives one item with its source and chain; an inert entry
/// gives nothing. A path of more instances than the catalog has entries must
/// pass some entry twice, and is refused as a cycle.
pub open spec fn visit(
    cat: Seq<Component>,
    idx: int,
    path: Seq<char>,
    chain: Seq<PlacementView>,
    depth: nat,
) -> Result<Walk, FormatError>
    decreases cat.len() - depth, 1int, 0int,
{
    if !(0 <= idx < cat.len()) {
        Err(FormatError::IndexOutOfRange { index: idx as usize })
    } else {
        let c = cat[idx];
        if c.instances@.len() > 0 {
            prepend(
                Walk {
                    items: seq![item_of(path, c.name@, DEFAULT_SUPPLIED_REVISION_ID@, None, None)],
                    placements: Seq::empty(),
                },
                visit_instances(cat, idx, 0, path, chain, depth),
            )
        } else {
            match c.geometry_source {
                Some(f) => Ok(
                    Walk {
                        items: seq![
                            item_of(
                                path,
                                c.name@,
                                DEFAULT_SUPPLIED_REVISION_ID@,
                                Some(f@),
                                Some(chain),
                            ),
                        ],
                        placements: Seq::empty(),
                    },
                ),
                None => Ok(empty_walk()),
            }
        }
    }
}

/// The walk below composite entry `idx` from its instance `i` on. A shown
/// instance gives its placement, then the walk of the entry it places.
pub open spec fn visit_instances(
    cat: Seq<Component>,
    idx: int,
    i: int,
    path: Seq<char>,
    chain: Seq<PlacementView>,
    depth: nat,
) -> Result<Walk, FormatError>
    decreases cat.len() - depth, 0int, cat[idx].instances@.len() - i,
{
    let insts = cat[idx].instances@;
    if i < 0 || i >= insts.len() {
        Ok(empty_walk())
    } else {
        let inst = insts[i];
        if inst.hide_self || inst.hide_child {
            visit_instances(cat, idx, i + 1, path, chain, depth)
        } else {
            match placement_spec(inst) {
                Err(e) => Err(e),
                Ok(p) => match index_value(inst.child_index@) {
                    None => Err(FormatError::BadIndex),
                    Some(k) => if k >= cat.len() {
                        Err(FormatError::IndexOutOfRange { index: k as usize })
                    } else if depth + 1 >= cat.len() {
                        Err(FormatError::Cycle)
                    } else {
                        match visit(
                            cat,
                            k as int,
                            child_path(path, inst.instance_id@),
                            chain.push(p),
                            depth + 1,
                        ) {
                            Err(e) => Err(e),
                            Ok(sub) => prepend(
                                join(Walk { items: Seq::empty(), placements: seq![p] }, sub),
                                visit_instances(cat, idx, i + 1, path, chain, depth),
                            ),
                        }
                    },
                },
            }
        }
    }
}

/// The walk of the whole catalog, whose last entry is the root.
pub open spec fn flatten_spec(cat: Seq<Component>) -> Result<Walk, FormatError> {
    if cat.len() == 0 {
        Err(FormatError::EmptyCatalog)
    } else {
        visit(cat, cat.len() - 1, Seq::empty(), Seq::empty(), 0)
    }
}

proof fn lemma_prepend_assoc(a: Walk, b: Walk, r: Result<Walk, FormatError>)
    ensures
        prepend(a, prepend(b, r)) == prepend(join(a, b), r),
{
    if let Ok(w) = r {
        assert(a.items + (b.items + w.items) =~= (a.items + b.items) + w.items);
        assert(a.placements + (b.placements + w.placements) =~= (a.placements + b.placements)
            + w.placements);
    }
}

/// The items and the accepted placements of a flattened catalog.
#[derive(Debug, PartialEq)]
pub struct Flattened {
    pub items: Vec<SceneItem>,
    pub placements: Vec<Placement>,
}

impl View for Flattened {
    type V = Walk;

    open spec fn view(&self) -> Walk {
        Walk { items: items_view(self.items@), placements: chain_view(self.placements@) }
    }
}

/// Appends to `items` the items of the node for entry `idx`, reached by
/// `path` through `chain`, and to `accepted` the placements the walk takes;
/// `chain` is left as it was, and what `items` and `accepted` held stays.
fn add_items(
    cat: &Vec<Component>,
    idx: usize,
    path: &str,
    chain: &mut Vec<Placement>,
    depth: usize,
    items: &mut Vec<SceneItem>,
    accepted: &mut Vec<Placement>,
) -> (r: Result<(), FormatError>)
    requires
        depth < cat@.len(),
    ensures
        chain_view(final(chain)@) == chain_view(old(chain)@),
        final(items)@.len() >= old(items)@.len(),
        final(items)@.subrange(0, old(items)@.len() as int) == old(items)@,
        final(accepted)@.len() >= old(accepted)@.len(),
        final(accepted)@.subrange(0, old(accepted)@.len() as int) == old(accepted)@,
        match visit(cat@, idx as int, path@, chain_view(old(chain)@), depth as nat) {
            Ok(w) => r is Ok && items_view(final(items)@) == items_view(old(items)@) + w.items
                && chain_view(final(accepted)@) == chain_view(old(accepted)@) + w.placements,
            Err(e) => r == Err::<(), FormatError>(e),
        },
    decreases cat@.len() - depth, 1int, 0int,
{
    proof {
        reveal_strlit("1");
    }
    let ghost raw_items = items@;
    let ghost raw_accepted = accepted@;
    if idx >= cat.len() {
        return Err(FormatError::IndexOutOfRange { index: idx });
    }
    let c = &cat[idx];
    let ghost cv = cat@;
    let ghost ch = chain_view(chain@);
    let ghost start = items_view(items@);
    let ghost pstart = chain_view(accepted@);
    if c.instances.len() > 0 {
        let item = SceneItem::new(
            path,
            c.name.as_str(),
            DEFAULT_SUPPLIED_REVISION_ID,
            None,
            None,
        );
        items.push(item);
        let ghost mut done = Walk { items: seq![item@], placements: Seq::empty() };
        assert(items_view(items@) =~= start + done.items);
        assert(chain_view(accepted@) =~= pstart + done.placements);
        assert(items@.subrange(0, raw_items.len() as int) =~= raw_items);
        assert(accepted@.subrange(0, raw_accepted.len() as int) =~= raw_accepted);
        let n = c.instances.len();
        let mut i: usize = 0;
        while i < n
            invariant
                cv == cat@,
                0 <= idx < cv.len(),
                c == cv[idx as int],
                n == c.instances@.len(),
                depth < cv.len(),
                i <= n,
                chain_view(chain@) == ch,
                ch == chain_view(old(chain)@),
                start == items_view(old(items)@),
                pstart == chain_view(old(accepted)@),
                raw_items == old(items)@,
                raw_accepted == old(accepted)@,
                items@.len() >= raw_items.len(),
                items@.subrange(0, raw_items.len() as int) == raw_items,
                accepted@.len() >= raw_accepted.len(),
                accepted@.subrange(0, raw_accepted.len() as int) == raw_accepted,
                items_view(items@) == start + done.items,
                chain_view(accepted@) == pstart + done.placements,
                visit(cv, idx as int, path@, ch, depth as nat) == prepend(
                    done,
                    visit_instances(cv, idx as int, i as int, path@, ch, depth as nat),
                ),
            decreases n - i,
        {
            let inst = &c.instances[i];
            if inst.hide_self || inst.hide_child {
                assert(visit_instances(cv, idx as int, i as int, path@, ch, depth as nat)
                    == visit_instances(cv, idx as int, i + 1, path@, ch, depth as nat));
                i = i + 1;
            } else {
                let p = match placement_of(inst) {
                    Ok(p) => p,
                    Err(e) => {
                        return Err(e);
                    },
                };
                let k = match parse_index(inst.child_index.as_str()) {
                    Some(k) => k,
                    None => {
                        return Err(FormatError::BadIndex);
                    },
                };
                if k >= cat.len() {
                    return Err(FormatError::IndexOutOfRange { index: k });
                }
                if depth + 1 >= cat.len() {
                    return Err(FormatError::Cycle);
                }
                let mut sub_path = String::from_str(path);
                sub_path.append("/");
                sub_path.append(inst.instance_id.as_str());
                proof {
                    reveal_strlit("/");
                    assert(sub_path@ =~= child_path(path@, inst.instance_id@));
                }
                let ghost pv = p@;
                let ghost items_before = items@;
                let ghost accepted_before = accepted@;
                accepted.push(p.duplicate());
                let ghost accepted_mid = accepted@;
                chain.push(p);
                assert(chain_view(chain@) =~= ch.push(pv));
                let res = add_items(
                    cat,
                    k,
                    sub_path.as_str(),
                    chain,
                    depth + 1,
                    items,
                    accepted,
                );
                let ghost pre = chain@;
                let _ = chain.pop();
                assert(chain_view(chain@) =~= chain_view(pre).drop_last());
                assert(chain_view(pre).drop_last() =~= ch);
                proof {
                    assert(items@.subrange(0, raw_items.len() as int) =~= items@.subrange(
                        0,
                        items_before.len() as int,
                    ).subrange(0, raw_items.len() as int));
                    assert(accepted@.subrange(0, raw_accepted.len() as int) =~= accepted@.subrange(
                        0,
                        accepted_mid.len() as int,
                    ).subrange(0, raw_accepted.len() as int));
                    assert(accepted_mid.subrange(0, raw_accepted.len() as int) =~= accepted_before.subrange(
                        0,
                        raw_accepted.len() as int,
                    ));
                }
                match res {
                    Err(e) => {
                        return Err(e);
                    },
                    Ok(()) => {},
                }
                proof {
                    let child = visit(
                        cv,
                        k as int,
                        child_path(path@, inst.instance_id@),
                        ch.push(pv),
                        (depth + 1) as nat,
                    );
                    assert(child is Ok);
                    let sub = child->Ok_0;
                    let step = join(Walk { items: Seq::empty(), placements: seq![pv] }, sub);
                    assert(visit_instances(cv, idx as int, i as int, path@, ch, depth as nat)
                        == prepend(
                        step,
                        visit_instances(cv, idx as int, i + 1, path@, ch, depth as nat),
                    ));
                    lemma_prepend_assoc(
                        done,
                        step,
                        visit_instances(cv, idx as int, i + 1, path@, ch, depth as nat),
                    );
                    assert(chain_view(accepted_mid) =~= chain_view(accepted_before).push(pv));
                    assert(items_view(items@) =~= start + join(done, step).items);
                    assert(chain_view(accepted@) =~= pstart + join(done, step).placements);
                    done = join(done, step);
                }
                i = i + 1;
            }
        }
        assert(done == visit(cv, idx as int, path@, ch, depth as nat)->Ok_0) by {
            assert(done.items =~= done.items + Seq::<SceneItemView>::empty());
            assert(done.placements =~= done.placements + Seq::<PlacementView>::empty());
        }
        Ok(())
    } else {
        match &c.geometry_source {
            Some(f) => {
                let item = SceneItem::new(
                    path,
                    c.name.as_str(),
                    DEFAULT_SUPPLIED_REVISION_ID,
                    Some(f.as_str()),
                    Some(copy_chain(chain)),
                );
                items.push(item);
                assert(items_view(items@) =~= start + seq![item@]);
                assert(chain_view(accepted@) =~= pstart + Seq::<PlacementView>::empty());
                assert(items@.subrange(0, raw_items.len() as int) =~= raw_items);
                assert(accepted@.subrange(0, raw_accepted.len() as int) =~= raw_accepted);
                Ok(())
            },
            None => {
                assert(items_view(items@) =~= start + Seq::<SceneItemView>::empty());
                assert(chain_view(accepted@) =~= pstart + Seq::<PlacementView>::empty());
                assert(items@.subrange(0, raw_items.len() as int) =~= raw_items);
                assert(accepted@.subrange(0, raw_accepted.len() as int) =~= raw_accepted);
                Ok(())
            },
        }
    }
}

/// The walk of the tree rooted at catalog entry `root_idx`.
pub fn create_items(components: &Vec<Component>, root_idx: usize) -> (r: Result<
    Flattened,
    FormatError,
>)
    ensures
        match visit(components@, root_idx as int, Seq::empty(), Seq::empty(), 0) {
            Ok(w) => r matches Ok(f) && f@ == w,
            Err(e) => r == Err::<Flattened, FormatError>(e),
        },
{
    if root_idx >= components.len() {
        return Err(FormatError::IndexOutOfRange { index: root_idx });
    }
    let mut items: Vec<SceneItem> = Vec::new();
    let mut accepted: Vec<Placement> = Vec::new();
    let mut chain: Vec<Placement> = Vec::new();
    proof {
        reveal_strlit("");
        assert(""@ =~= Seq::<char>::empty());
        assert(chain_view(chain@) =~= Seq::<PlacementView>::empty());
        assert(chain_view(accepted@) =~= Seq::<PlacementView>::empty());
        assert(items_view(items@) =~= Seq::<SceneItemView>::empty());
    }
    match add_items(components, root_idx, "", &mut chain, 0, &mut items, &mut accepted) {
        Ok(()) => {
            assert(items_view(items@) =~= Seq::<SceneItemView>::empty() + items_view(items@));
            assert(chain_view(accepted@) =~= Seq::<PlacementView>::empty() + chain_view(
                accepted@,
            ));
            Ok(Flattened { items, placements: accepted })
        },
        Err(e) => Err(e),
    }
}

/// The walk of the whole catalog, whose last entry is the root.
pub fn flatten(components: &Vec<Component>) -> (r: Result<Flattened, FormatError>)
    ensures
        match flatten_spec(components@) {
            Ok(w) => r matches Ok(f) && f@ == w,
            Err(e) => r == Err::<Flattened, FormatError>(e),
        },
{
    if components.len() == 0 {
        return Err(FormatError::EmptyCatalog);
    }
    create_items(components, components.len() - 1)
}

/// An entry with no instances and no geometry source gives no item, takes
/// no placement, and has nothing below it.
pub proof fn lemma_inert_gives_nothing(
    cat: Seq<Component>,
    idx: int,
    path: Seq<char>,
    chain: Seq<PlacementView>,
    depth: nat,
)
    requires
        0 <= idx < cat.len(),
        cat[idx].instances@.len() == 0,
        cat[idx].geometry_source is None,
    ensures
        visit(cat, idx, path, chain, depth) == Ok::<Walk, FormatError>(empty_walk()),
{
}

/// Where the catalog gives any item, the first is the root: depth 0,
/// identifier `/`, and no parent.
pub proof fn lemma_root_item(cat: Seq<Component>)
    requires
        flatten_spec(cat) is Ok,
        flatten_spec(cat)->Ok_0.items.len() > 0,
    ensures
        flatten_spec(cat)->Ok_0.items[0].depth == 0,
        flatten_spec(cat)->Ok_0.items[0].supplied_id == seq!['/'],
        flatten_spec(cat)->Ok_0.items[0].parent_id is None,
{
    let s = flatten_spec(cat)->Ok_0.items;
    let c = cat[cat.len() - 1];
    let empty = Seq::<char>::empty();
    if c.instances@.len() > 0 {
        let rest = visit_instances(cat, cat.len() - 1, 0, empty, Seq::empty(), 0);
        assert(s == seq![item_of(empty, c.name@, DEFAULT_SUPPLIED_REVISION_ID@, None, None)]
            + rest->Ok_0.items);
    }
}

/// A composite node's own item comes first among its items, and carries
/// neither a source nor placements.
pub proof fn lemma_composite_item_bare(
    cat: Seq<Component>,
    idx: int,
    path: Seq<char>,
    chain: Seq<PlacementView>,
    depth: nat,
)
    requires
        0 <= idx < cat.len(),
        cat[idx].instances@.len() > 0,
        visit(cat, idx, path, chain, depth) is Ok,
    ensures
        visit(cat, idx, path, chain, depth)->Ok_0.items.len() > 0,
        visit(cat, idx, path, chain, depth)->Ok_0.items[0].supplied_id
            == crate::path::supplied_id_of(path),
        visit(cat, idx, path, chain, depth)->Ok_0.items[0].source is None,
        visit(cat, idx, path, chain, depth)->Ok_0.items[0].placements is None,
{
    let c = cat[idx];
    let head = seq![item_of(path, c.name@, DEFAULT_SUPPLIED_REVISION_ID@, None, None)];
    let rest = visit_instances(cat, idx, 0, path, chain, depth);
    assert(visit(cat, idx, path, chain, depth)->Ok_0.items == head + rest->Ok_0.items);
    assert((head + rest->Ok_0.items)[0] == head[0]);
}

/// A leaf gives exactly one item: its source, and the chain of placements
/// that reached it, whose product is its world transform.
pub proof fn lemma_leaf_item(
    cat: Seq<Component>,
    idx: int,
    path: Seq<char>,
    chain: Seq<PlacementView>,
    depth: nat,
)
    requires
        0 <= idx < cat.len(),
        cat[idx].instances@.len() == 0,
        cat[idx].geometry_source is Some,
    ensures
        visit(cat, idx, path, chain, depth) is Ok,
        visit(cat, idx, path, chain, depth)->Ok_0.items.len() == 1,
        visit(cat, idx, path, chain, depth)->Ok_0.items[0].source is Some,
        visit(cat, idx, path, chain, depth)->Ok_0.items[0].placements == Some(chain),
{
}

/// An instance hidden by either flag gives no item, takes no placement, and
/// has nothing below it: the walk from it on is the walk from the next
/// instance on.
pub proof fn lemma_hidden_instance_skipped(
    cat: Seq<Component>,
    idx: int,
    i: int,
    path: Seq<char>,
    chain: Seq<PlacementView>,
    depth: nat,
)
    requires
        0 <= idx < cat.len(),
        0 <= i < cat[idx].instances@.len(),
        cat[idx].instances@[i].hide_self || cat[idx].instances@[i].hide_child,
    ensures
        visit_instances(cat, idx, i, path, chain, depth) == visit_instances(
            cat,
            idx,
            i + 1,
            path,
            chain,
            depth,
        ),
{
}

/// A shown instance whose placement has a wrong field count fails the whole
/// walk from it on, whatever lies below it.
pub proof fn lemma_bad_placement_fails(
    cat: Seq<Component>,
    idx: int,
    i: int,
    path: Seq<char>,
    chain: Seq<PlacementView>,
    depth: nat,
)
    requires
        0 <= idx < cat.len(),
        0 <= i < cat[idx].instances@.len(),
        !cat[idx].instances@[i].hide_self,
        !cat[idx].instances@[i].hide_child,
        placement_spec(cat[idx].instances@[i]) is Err,
    ensures
        visit_instances(cat, idx, i, path, chain, depth) == Err::<Walk, FormatError>(
            placement_spec(cat[idx].instances@[i])->Err_0,
        ),
{
}

/// An item either stands for a composite, with neither a source nor
/// placements, or for a leaf, with both.
pub open spec fn well_shaped(v: SceneItemView) -> bool {
    (v.source is None) == (v.placements is None)
}

pub open spec fn all_well_shaped(r: Result<Walk, FormatError>) -> bool {
    r is Ok ==> forall|k: int|
        0 <= k < r->Ok_0.items.len() ==> well_shaped(#[trigger] r->Ok_0.items[k])
}

/// No item of a node's subtree carries a source without placements, nor
/// placements without a source: composite items carry neither.
pub proof fn lemma_items_well_shaped(
    cat: Seq<Component>,
    idx: int,
    path: Seq<char>,
    chain: Seq<PlacementView>,
    depth: nat,
)
    ensures
        all_well_shaped(visit(cat, idx, path, chain, depth)),
    decreases cat.len() - depth, 1int, 0int,
{
    if 0 <= idx < cat.len() && cat[idx].instances@.len() > 0 {
        let c = cat[idx];
        lemma_instances_well_shaped(cat, idx, 0, path, chain, depth);
        let head = seq![item_of(path, c.name@, DEFAULT_SUPPLIED_REVISION_ID@, None, None)];
        let rest = visit_instances(cat, idx, 0, path, chain, depth);
        if rest is Ok {
            let all = head + rest->Ok_0.items;
            assert forall|k: int| 0 <= k < all.len() implies well_shaped(#[trigger] all[k]) by {
                if k > 0 {
                    assert(all[k] == rest->Ok_0.items[k - 1]);
                }
            }
        }
    }
}

proof fn lemma_instances_well_shaped(
    cat: Seq<Component>,
    idx: int,
    i: int,
    path: Seq<char>,
    chain: Seq<PlacementView>,
    depth: nat,
)
    ensures
        all_well_shaped(visit_instances(cat, idx, i, path, chain, depth)),
    decreases cat.len() - depth, 0int, cat[idx].instances@.len() - i,
{
    let insts = cat[idx].instances@;
    if 0 <= i < insts.len() {
        let inst = insts[i];
        lemma_instances_well_shaped(cat, idx, i + 1, path, chain, depth);
        if !(inst.hide_self || inst.hide_child) {
            if let Ok(p) = placement_spec(inst) {
                if let Some(k) = index_value(inst.child_index@) {
                    if k < cat.len() && depth + 1 < cat.len() {
                        let sub_path = child_path(path, inst.instance_id@);
                        lemma_items_well_shaped(cat, k as int, sub_path, chain.push(p), depth + 1);
                        let sub = visit(cat, k as int, sub_path, chain.push(p), depth + 1);
                        let rest = visit_instances(cat, idx, i + 1, path, chain, depth);
                        if sub is Ok && rest is Ok {
                            let all = Seq::<SceneItemView>::empty() + sub->Ok_0.items
                                + rest->Ok_0.items;
                            assert forall|j: int| 0 <= j < all.len() implies well_shaped(
                                #[trigger] all[j],
                            ) by {
                                if j < sub->Ok_0.items.len() {
                                    assert(all[j] == sub->Ok_0.items[j]);
                                } else {
                                    assert(all[j] == rest->Ok_0.items[j - sub->Ok_0.items.len()]);
                                }
                            }
                        }
                    }
                }
            }
        }
    }
}

} // verus!
