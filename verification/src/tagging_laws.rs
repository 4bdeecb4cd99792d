//! The laws of tagging: what a store looks like after a target has been
//! tagged, that tagging it again changes nothing, and how many edges leave a
//! tag that has been put on a number of items.

use crate::graph::SCAN_LIMIT;
use crate::kinds::Vtype;
use crate::linking::between;
use crate::model::{leaving, of_kind, Store};
use crate::sequences::filter_every;
use vstd::prelude::*;

verus! {

/// The longer of 1 and `n`.
pub open spec fn at_least_one(n: nat) -> nat {
    if n == 0 {
        1
    } else {
        n
    }
}

impl Store {
    /// A resolution leaves every scan for another text as it was, in a store
    /// of good shape that the scan walks to its end.
    pub proof fn resolving_leaves_others(
        self,
        after: Store,
        id: u128,
        kind: Seq<char>,
        name: Seq<char>,
        value: Seq<char>,
        other_name: Seq<char>,
        other_value: Seq<char>,
    )
        requires
            self.well_formed(),
            self.has_room(1, 0),
            self.resolves(after, id, kind, name, value),
            !(other_name == name && other_value == value),
        ensures
            after.matching(other_name, other_value, SCAN_LIMIT as nat) == self.matching(
                other_name,
                other_value,
                SCAN_LIMIT as nat,
            ),
    {
        if self.matching(name, value, SCAN_LIMIT as nat).len() == 0 {
            self.matching_after_adds(after, id, kind, name, value, other_name, other_value);
        }
    }

    /// What a resolution does to the tables, in a store of good shape: at
    /// most one vertex is new, the edges are as they were, and every vertex
    /// is still there.
    pub proof fn resolving_grows(
        self,
        after: Store,
        id: u128,
        kind: Seq<char>,
        name: Seq<char>,
        value: Seq<char>,
    )
        requires
            self.well_formed(),
            self.resolves(after, id, kind, name, value),
        ensures
            after.vertices.len() <= self.vertices.len() + 1,
            after.edges == self.edges,
            after.reversed == self.reversed,
            forall|other: u128| self.has_vertex(other) ==> after.has_vertex(other),
            self.matching(name, value, SCAN_LIMIT as nat).len() == 0 ==> !self.has_vertex(id),
    {
        if self.matching(name, value, SCAN_LIMIT as nat).len() == 0 {
            self.after_adds(after, id, kind, name, value);
            crate::shape::inserted_items(
                self.vertices,
                after.vertices,
                crate::model::VertexRow { id, kind },
            );
        }
    }

    /// **What tagging yields.** After a target has been tagged in a store of
    /// good shape with room for two vertices and an edge, the store is of
    /// good shape; a scan finds the item's vertex first for the target and
    /// the tag's vertex first for the tag, the vertices it found before where
    /// it found any; it finds as many as before for each, and one where it
    /// found none; the listings share an edge from tag to item; and the
    /// edges that leave a vertex are as many as before, but for one more at
    /// the tag's vertex where no edge led from it to the item's.
    pub proof fn after_tagged(
        self,
        after: Store,
        tag_type: Seq<char>,
        tag: Seq<char>,
        kind: Vtype,
        target: Seq<char>,
    ) -> (ends: (u128, u128))
        requires
            self.well_formed(),
            self.has_room(2, 1),
            self.tagged(after, tag_type, tag, kind, target),
        ensures
            after.well_formed(),
            after.has_room(0, 0),
            after.vertices.len() <= self.vertices.len() + 2,
            after.edges.len() <= self.edges.len() + 1,
            after.reversed.len() <= self.reversed.len() + 1,
            after.has_vertex(ends.0),
            after.has_vertex(ends.1),
            after.matching(kind.name(), target, SCAN_LIMIT as nat).len() == at_least_one(
                self.matching(kind.name(), target, SCAN_LIMIT as nat).len(),
            ),
            after.matching(kind.name(), target, SCAN_LIMIT as nat)[0] == ends.0,
            self.matching(kind.name(), target, SCAN_LIMIT as nat).len() > 0 ==> self.matching(
                kind.name(),
                target,
                SCAN_LIMIT as nat,
            )[0] == ends.0,
            self.matching(kind.name(), target, SCAN_LIMIT as nat).len() == 0 ==> !self.has_vertex(
                ends.0,
            ),
            after.matching(Vtype::Tagname.name(), tag, SCAN_LIMIT as nat).len() == at_least_one(
                self.matching(Vtype::Tagname.name(), tag, SCAN_LIMIT as nat).len(),
            ),
            after.matching(Vtype::Tagname.name(), tag, SCAN_LIMIT as nat)[0] == ends.1,
            self.matching(Vtype::Tagname.name(), tag, SCAN_LIMIT as nat).len() > 0
                ==> self.matching(Vtype::Tagname.name(), tag, SCAN_LIMIT as nat)[0] == ends.1,
            self.matching(Vtype::Tagname.name(), tag, SCAN_LIMIT as nat).len() == 0 && !(kind.name()
                == Vtype::Tagname.name() && target == tag) ==> !self.has_vertex(ends.1),
            after.shared(ends.0, ends.1, SCAN_LIMIT as nat) > 0,
            after.links_between(ends.1, ends.0) == at_least_one(
                self.links_between(ends.1, ends.0),
            ),
            self.links_between(ends.1, ends.0) > 0 ==> after.edges == self.edges && after.reversed
                == self.reversed,
            forall|id: u128|
                after.edges.filter(leaving(id)).len() == self.edges.filter(leaving(id)).len() + (
                if id == ends.1 && self.links_between(ends.1, ends.0) == 0 {
                    1int
                } else {
                    0int
                }),
            forall|name: Seq<char>, value: Seq<char>|
                !(name == kind.name() && value == target) && !(name == Vtype::Tagname.name()
                    && value == tag) ==> #[trigger] after.matching(name, value, SCAN_LIMIT as nat)
                    == self.matching(name, value, SCAN_LIMIT as nat),
    {
        let limit = SCAN_LIMIT as nat;
        let item_name = kind.name();
        let tag_name = Vtype::Tagname.name();
        let (s1, s2, item_id, tag_id) = choose|s1: Store, s2: Store, item_id: u128, tag_id: u128|
            {
                &&& #[trigger] self.resolves(s1, item_id, kind.name(), kind.name(), target)
                &&& #[trigger] s1.resolves(s2, tag_id, tag_type, Vtype::Tagname.name(), tag)
                &&& s2.joins(after, tag_id, item_id)
            };
        self.resolved_is_found(s1, item_id, item_name, item_name, target);
        self.resolving_grows(s1, item_id, item_name, item_name, target);
        s1.resolved_is_found(s2, tag_id, tag_type, tag_name, tag);
        s1.resolving_grows(s2, tag_id, tag_type, tag_name, tag);
        let same_key = item_name == tag_name && target == tag;
        if !same_key {
            s1.resolving_leaves_others(s2, tag_id, tag_type, tag_name, tag, item_name, target);
            self.resolving_leaves_others(s1, item_id, item_name, item_name, target, tag_name, tag);
        }
        s2.after_joins(after, tag_id, item_id);
        assert(after.matching(item_name, target, limit) == s2.matching(item_name, target, limit));
        assert(after.matching(tag_name, tag, limit) == s2.matching(tag_name, tag, limit));
        assert forall|name: Seq<char>, value: Seq<char>|
            !(name == kind.name() && value == target) && !(name == Vtype::Tagname.name() && value
                == tag) implies #[trigger] after.matching(name, value, SCAN_LIMIT as nat)
            == self.matching(name, value, SCAN_LIMIT as nat) by {
            self.resolving_leaves_others(s1, item_id, item_name, item_name, target, name, value);
            s1.resolving_leaves_others(s2, tag_id, tag_type, tag_name, tag, name, value);
            assert(after.matching(name, value, limit) == s2.matching(name, value, limit));
        }
        (item_id, tag_id)
    }

    /// **Tagging is idempotent.** In a store of good shape with room for two
    /// vertices and an edge, tagging a target a second time with the same
    /// tag changes nothing. So any number of taggings leaves the store as
    /// the first did.
    pub proof fn tagging_again_changes_nothing(
        self,
        first: Store,
        second: Store,
        tag_type: Seq<char>,
        tag: Seq<char>,
        kind: Vtype,
        target: Seq<char>,
    )
        requires
            self.well_formed(),
            self.has_room(2, 1),
            self.tagged(first, tag_type, tag, kind, target),
            first.tagged(second, tag_type, tag, kind, target),
        ensures
            second == first,
    {
        let ends = self.after_tagged(first, tag_type, tag, kind, target);
        let (s1, s2, item_id, tag_id) = choose|s1: Store, s2: Store, item_id: u128, tag_id: u128|
            {
                &&& #[trigger] first.resolves(s1, item_id, kind.name(), kind.name(), target)
                &&& #[trigger] s1.resolves(s2, tag_id, tag_type, Vtype::Tagname.name(), tag)
                &&& s2.joins(second, tag_id, item_id)
            };
        assert(s1 == first && item_id == ends.0);
        assert(s2 == first && tag_id == ends.1);
    }

    /// **One of each.** Where a scan found at most one vertex for the tag and
    /// at most one for the target, and no two edges led from one vertex to
    /// another, tagging the target leaves exactly one vertex for the tag,
    /// exactly one for the target, and exactly one edge from the one to the
    /// other.
    pub proof fn tagging_yields_one_of_each(
        self,
        after: Store,
        tag_type: Seq<char>,
        tag: Seq<char>,
        kind: Vtype,
        target: Seq<char>,
    )
        requires
            self.well_formed(),
            self.has_room(2, 1),
            self.tagged(after, tag_type, tag, kind, target),
            self.matching(kind.name(), target, SCAN_LIMIT as nat).len() <= 1,
            self.matching(Vtype::Tagname.name(), tag, SCAN_LIMIT as nat).len() <= 1,
            forall|a: u128, b: u128| self.links_between(a, b) <= 1,
        ensures
            after.matching(kind.name(), target, SCAN_LIMIT as nat).len() == 1,
            after.matching(Vtype::Tagname.name(), tag, SCAN_LIMIT as nat).len() == 1,
            after.links_between(
                after.matching(Vtype::Tagname.name(), tag, SCAN_LIMIT as nat)[0],
                after.matching(kind.name(), target, SCAN_LIMIT as nat)[0],
            ) == 1,
    {
        let ends = self.after_tagged(after, tag_type, tag, kind, target);
        assert(self.links_between(ends.1, ends.0) <= 1);
    }
}

/// Each state but the first is the one before it after one more of the
/// targets has been tagged with `tag`.
pub open spec fn tagged_in_turn(
    states: Seq<Store>,
    tag_type: Seq<char>,
    tag: Seq<char>,
    kinds: Seq<Vtype>,
    targets: Seq<Seq<char>>,
) -> bool {
    &&& states.len() == targets.len() + 1
    &&& kinds.len() == targets.len()
    &&& forall|i: int|
        0 <= i < targets.len() ==> (#[trigger] states[i]).tagged(
            states[i + 1],
            tag_type,
            tag,
            kinds[i],
            targets[i],
        )
}

/// Each state but the first is the one before it after the same target has
/// been tagged with the same tag once more.
pub open spec fn tagged_repeatedly(
    states: Seq<Store>,
    tag_type: Seq<char>,
    tag: Seq<char>,
    kind: Vtype,
    target: Seq<char>,
) -> bool {
    forall|i: int|
        0 <= i < states.len() - 1 ==> (#[trigger] states[i]).tagged(
            states[i + 1],
            tag_type,
            tag,
            kind,
            target,
        )
}

/// The property of a path and that of a web address are not the property
/// that holds a tag.
pub proof fn item_names_are_not_the_tag_name()
    ensures
        Vtype::Path.name() != Vtype::Tagname.name(),
        Vtype::Http.name() != Vtype::Tagname.name(),
{
    reveal_strlit("Path");
    reveal_strlit("Http");
    reveal_strlit("Tagname");
    assert(Vtype::Path.name().len() == 4);
    assert(Vtype::Http.name().len() == 4);
    assert(Vtype::Tagname.name().len() == 7);
}

/// **Any number of taggings is one tagging.** In a store of good shape with
/// room for two vertices and an edge, however often a target is tagged with
/// the same tag, every store after the first tagging is the store that the
/// first tagging left.
pub proof fn tagging_many_times_is_tagging_once(
    states: Seq<Store>,
    tag_type: Seq<char>,
    tag: Seq<char>,
    kind: Vtype,
    target: Seq<char>,
    k: int,
)
    requires
        states.len() >= 2,
        states[0].well_formed(),
        states[0].has_room(2, 1),
        tagged_repeatedly(states, tag_type, tag, kind, target),
        1 <= k < states.len(),
    ensures
        states[k] == states[1],
    decreases k,
{
    if k > 1 {
        tagging_many_times_is_tagging_once(states, tag_type, tag, kind, target, k - 1);
        assert(states[0].tagged(states[1], tag_type, tag, kind, target));
        assert(states[k - 1].tagged(states[k], tag_type, tag, kind, target));
        states[0].tagging_again_changes_nothing(
            states[1],
            states[k],
            tag_type,
            tag,
            kind,
            target,
        );
    }
}

/// What holds after the first `m` of the targets have been tagged, under the
/// conditions of `tagging_fans_out`: the shape is kept, there is room for the
/// rest, none of the rest is known, and the tag's vertex has `m` outgoing
/// edges.
proof fn fans_out_so_far(
    states: Seq<Store>,
    tag_type: Seq<char>,
    tag: Seq<char>,
    kinds: Seq<Vtype>,
    targets: Seq<Seq<char>>,
    m: int,
)
    requires
        tagged_in_turn(states, tag_type, tag, kinds, targets),
        states[0].well_formed(),
        states[0].has_room(2 * targets.len(), targets.len()),
        forall|i: int, j: int| 0 <= i < j < targets.len() ==> targets[i] != targets[j],
        forall|i: int| 0 <= i < kinds.len() ==> kinds[i] is Path || kinds[i] is Http,
        forall|i: int|
            0 <= i < targets.len() ==> states[0].matching(
                kinds[i].name(),
                targets[i],
                SCAN_LIMIT as nat,
            ).len() == 0,
        states[0].matching(Vtype::Tagname.name(), tag, SCAN_LIMIT as nat).len() > 0
            ==> states[0].edges.filter(
            leaving(states[0].matching(Vtype::Tagname.name(), tag, SCAN_LIMIT as nat)[0]),
        ).len() == 0,
        0 <= m <= targets.len(),
    ensures
        states[m].well_formed(),
        states[m].has_room((2 * (targets.len() - m)) as nat, (targets.len() - m) as nat),
        forall|j: int|
            m <= j < targets.len() ==> states[m].matching(
                kinds[j].name(),
                targets[j],
                SCAN_LIMIT as nat,
            ).len() == 0,
        m > 0 ==> states[m].matching(Vtype::Tagname.name(), tag, SCAN_LIMIT as nat).len() > 0,
        states[m].matching(Vtype::Tagname.name(), tag, SCAN_LIMIT as nat).len() > 0
            ==> states[m].edges.filter(
            leaving(states[m].matching(Vtype::Tagname.name(), tag, SCAN_LIMIT as nat)[0]),
        ).len() == m,
    decreases m,
{
    if m > 0 {
        fans_out_so_far(states, tag_type, tag, kinds, targets, m - 1);
        item_names_are_not_the_tag_name();
        let before = states[m - 1];
        let after = states[m];
        let kind = kinds[m - 1];
        let target = targets[m - 1];
        assert(before.tagged(after, tag_type, tag, kind, target));
        let ends = before.after_tagged(after, tag_type, tag, kind, target);
        assert(kind is Path || kind is Http);
        before.stranger_has_no_edge(ends.0, between(ends.1, ends.0));
        if before.matching(Vtype::Tagname.name(), tag, SCAN_LIMIT as nat).len() == 0 {
            before.stranger_has_no_edge(ends.1, leaving(ends.1));
        }
        assert forall|j: int| m <= j < targets.len() implies after.matching(
            kinds[j].name(),
            targets[j],
            SCAN_LIMIT as nat,
        ).len() == 0 by {
            assert(kinds[j] is Path || kinds[j] is Http);
            assert(targets[m - 1] != targets[j]);
        }
    }
}

/// **Fan-out.** Take a store of good shape with room for what is to come, a
/// tag whose vertex, where the store has one, has no outgoing edge, and `n`
/// distinct targets, paths or web addresses, none of which the store knows.
/// Once each of them has been tagged with the tag, exactly `n` edges leave
/// the tag's vertex.
pub proof fn tagging_fans_out(
    states: Seq<Store>,
    tag_type: Seq<char>,
    tag: Seq<char>,
    kinds: Seq<Vtype>,
    targets: Seq<Seq<char>>,
)
    requires
        targets.len() >= 1,
        tagged_in_turn(states, tag_type, tag, kinds, targets),
        states[0].well_formed(),
        states[0].has_room(2 * targets.len(), targets.len()),
        forall|i: int, j: int| 0 <= i < j < targets.len() ==> targets[i] != targets[j],
        forall|i: int| 0 <= i < kinds.len() ==> kinds[i] is Path || kinds[i] is Http,
        forall|i: int|
            0 <= i < targets.len() ==> states[0].matching(
                kinds[i].name(),
                targets[i],
                SCAN_LIMIT as nat,
            ).len() == 0,
        states[0].matching(Vtype::Tagname.name(), tag, SCAN_LIMIT as nat).len() > 0
            ==> states[0].edges.filter(
            leaving(states[0].matching(Vtype::Tagname.name(), tag, SCAN_LIMIT as nat)[0]),
        ).len() == 0,
    ensures
        states.last().matching(Vtype::Tagname.name(), tag, SCAN_LIMIT as nat).len() > 0,
        states.last().out_degree(
            states.last().matching(Vtype::Tagname.name(), tag, SCAN_LIMIT as nat)[0],
            None,
        ) == targets.len(),
{
    fans_out_so_far(states, tag_type, tag, kinds, targets, targets.len() as int);
    let last = states.last();
    let t = last.matching(Vtype::Tagname.name(), tag, SCAN_LIMIT as nat)[0];
    filter_every(last.edges.filter(leaving(t)), of_kind(None));
}

} // verus!
