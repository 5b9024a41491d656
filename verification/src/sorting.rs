//! Lists that are kept in the order of their names.

use vstd::prelude::*;

use crate::text;

verus! {

/// Whether no name stands before one that it should stand after.
pub open spec fn in_order(names: Seq<Seq<char>>) -> bool {
    forall|i: int, j: int|
        0 <= i <= j < names.len() ==> text::not_after(#[trigger] names[i], #[trigger] names[j])
}

/// How many names at the start of a list do not stand after a name.
pub open spec fn rank(names: Seq<Seq<char>>, name: Seq<char>) -> nat
    decreases names.len(),
{
    if names.len() > 0 && text::not_after(names[0], name) {
        1 + rank(names.skip(1), name)
    } else {
        0
    }
}

proof fn lemma_rank(names: Seq<Seq<char>>, name: Seq<char>)
    ensures
        rank(names, name) <= names.len(),
        forall|i: int| 0 <= i < rank(names, name) ==> text::not_after(#[trigger] names[i], name),
        rank(names, name) < names.len() ==> !text::not_after(
            names[rank(names, name) as int],
            name,
        ),
    decreases names.len(),
{
    if names.len() > 0 && text::not_after(names[0], name) {
        let rest = names.skip(1);
        lemma_rank(rest, name);
        assert forall|i: int| 0 <= i < rank(names, name) implies text::not_after(
            #[trigger] names[i],
            name,
        ) by {
            if i > 0 {
                assert(rest[i - 1] == names[i]);
            }
        }
        if rank(names, name) < names.len() {
            assert(rest[rank(rest, name) as int] == names[rank(names, name) as int]);
        }
    }
}

/// In an ordered list a rank parts the names: those before it do not stand after the name, and all
/// others do.
pub proof fn law_rank_parts_the_names(names: Seq<Seq<char>>, name: Seq<char>)
    requires
        in_order(names),
    ensures
        rank(names, name) <= names.len(),
        forall|i: int|
            0 <= i < names.len() ==> (text::not_after(#[trigger] names[i], name) <==> i < rank(
                names,
                name,
            )),
{
    lemma_rank(names, name);
    let r = rank(names, name) as int;
    assert forall|i: int| r <= i < names.len() implies !text::not_after(
        #[trigger] names[i],
        name,
    ) by {
        if text::not_after(names[i], name) {
            assert(text::not_after(names[r], names[i]));
            text::law_order_transitive(names[r], names[i], name);
        }
    }
}

/// A list stays in order when a name is put in at its rank.
pub proof fn law_rank_keeps_order(names: Seq<Seq<char>>, name: Seq<char>)
    requires
        in_order(names),
    ensures
        rank(names, name) <= names.len(),
        in_order(names.insert(rank(names, name) as int, name)),
{
    law_rank_parts_the_names(names, name);
    let r = rank(names, name) as int;
    let all = names.insert(r, name);
    assert forall|i: int, j: int| 0 <= i <= j < all.len() implies text::not_after(
        #[trigger] all[i],
        #[trigger] all[j],
    ) by {
        text::law_order_total(all[i], all[j]);
        if i < r {
            assert(all[i] == names[i]);
            if j < r {
                assert(all[j] == names[j]);
            } else if j > r {
                assert(all[j] == names[j - 1]);
            }
        } else if i == r {
            if j > r {
                assert(all[j] == names[j - 1]);
                text::law_order_total(names[j - 1], name);
            }
        } else {
            assert(all[i] == names[i - 1]);
            assert(all[j] == names[j - 1]);
        }
    }
}

/// What is kept in the order of its name.
pub trait Named {
    /// The name.
    spec fn name_of(&self) -> Seq<char>;

    /// The name.
    fn name(&self) -> (r: &str)
        ensures
            r@ == self.name_of(),
    ;
}

/// The names of several values.
pub open spec fn names_of<N: Named>(list: Seq<N>) -> Seq<Seq<char>> {
    list.map_values(|item: N| item.name_of())
}

/// How many values at the start of an ordered list have names that do not stand after a name.
pub fn position<N: Named>(list: &Vec<N>, name: &str) -> (r: usize)
    requires
        in_order(names_of(list@)),
    ensures
        r <= list@.len(),
        r == rank(names_of(list@), name@),
{
    let ghost names = names_of(list@);
    proof {
        law_rank_parts_the_names(names, name@);
    }
    let mut low: usize = 0;
    let mut high: usize = list.len();
    while low < high
        invariant
            low <= rank(names, name@) <= high <= list@.len(),
            names == names_of(list@),
            forall|i: int|
                0 <= i < names.len() ==> (text::not_after(#[trigger] names[i], name@) <==> i
                    < rank(names, name@)),
        decreases high - low,
    {
        let middle: usize = low + (high - low) / 2;
        assert(names[middle as int] == list@[middle as int].name_of());
        if text::ordered(list[middle].name(), name) {
            low = middle + 1;
        } else {
            high = middle;
        }
    }
    low
}

/// Puts a value into an ordered list, after those whose names are the same.
pub fn place<N: Named>(list: &mut Vec<N>, item: N)
    requires
        in_order(names_of(old(list)@)),
    ensures
        final(list)@ == old(list)@.insert(
            rank(names_of(old(list)@), item.name_of()) as int,
            item,
        ),
        in_order(names_of(final(list)@)),
        rank(names_of(old(list)@), item.name_of()) <= old(list)@.len(),
{
    let at: usize = position(list, item.name());
    proof {
        law_rank_keeps_order(names_of(list@), item.name_of());
        assert(names_of(list@.insert(at as int, item)) =~= names_of(list@).insert(
            at as int,
            item.name_of(),
        ));
    }
    list.insert(at, item);
}

} // verus!
