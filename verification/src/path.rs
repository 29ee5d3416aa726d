//! Paths as sequences of parts, and their order.
//!
//! A path is what its parts are: two paths are the same where their parts
//! are, whatever separators they were written with, and a path comes
//! before another where the first part in which they differ does. The
//! order of the kinds of part, and of the parts of a kind, is that of the
//! host's own path type.

use vstd::prelude::*;
use crate::text::{
    lemma_lex_less_irreflexive, lemma_lex_less_transitive, lex_less, order_of, Order,
};

verus! {

/// The kinds of part, in their order. The first six are the prefixes that
/// only some hosts have.
#[derive(Clone, Copy, Debug, PartialEq, Eq, Structural)]
pub enum PartKind {
    /// `\\?\name`, with `name` as the first text.
    VerbatimPrefix,
    /// `\\?\UNC\server\share`, with server and share as the two texts.
    VerbatimUncPrefix,
    /// `\\?\C:`, with the drive letter as the first text.
    VerbatimDiskPrefix,
    /// `\\.\name`, with `name` as the first text.
    DeviceNamespacePrefix,
    /// `\\server\share`, with server and share as the two texts.
    UncPrefix,
    /// `C:`, with the drive letter as the first text.
    DiskPrefix,
    /// The root directory; it has no text.
    Root,
    /// `.`; it has no text.
    Current,
    /// `..`; it has no text.
    Parent,
    /// A name, as the first text.
    Normal,
}

/// One part of a path. A text that the kind has no use for is empty.
#[derive(Debug)]
pub struct Part {
    pub kind: PartKind,
    pub first: String,
    pub second: String,
}

/// What a [`Part`] holds, as plain values.
pub struct PartView {
    pub kind: PartKind,
    pub first: Seq<char>,
    pub second: Seq<char>,
}

impl View for Part {
    type V = PartView;

    open spec fn view(&self) -> PartView {
        PartView { kind: self.kind, first: self.first@, second: self.second@ }
    }
}

/// The place of `kind` in the order of the kinds.
pub open spec fn rank(kind: PartKind) -> int {
    match kind {
        PartKind::VerbatimPrefix => 0,
        PartKind::VerbatimUncPrefix => 1,
        PartKind::VerbatimDiskPrefix => 2,
        PartKind::DeviceNamespacePrefix => 3,
        PartKind::UncPrefix => 4,
        PartKind::DiskPrefix => 5,
        PartKind::Root => 6,
        PartKind::Current => 7,
        PartKind::Parent => 8,
        PartKind::Normal => 9,
    }
}

/// Whether the part `x` comes before the part `y`: by kind, then by the
/// first text, then by the second, texts in the order of dictionaries.
pub open spec fn part_less(x: PartView, y: PartView) -> bool {
    rank(x.kind) < rank(y.kind) || (x.kind == y.kind && (lex_less(x.first, y.first) || (x.first
        == y.first && lex_less(x.second, y.second))))
}

/// The parts of a path, as plain values.
pub open spec fn parts_of(parts: Seq<Part>) -> Seq<PartView> {
    Seq::new(parts.len(), |i: int| parts[i]@)
}

/// Whether the path `a` comes before the path `b`: the first part in which
/// they differ decides, and a path comes before every longer path that
/// starts with it.
pub open spec fn path_less(a: Seq<PartView>, b: Seq<PartView>) -> bool
    decreases a.len(),
{
    if b.len() == 0 {
        false
    } else if a.len() == 0 {
        true
    } else if a.first() != b.first() {
        part_less(a.first(), b.first())
    } else {
        path_less(a.drop_first(), b.drop_first())
    }
}

/// No part comes before itself.
pub proof fn lemma_part_less_irreflexive(x: PartView)
    ensures
        !part_less(x, x),
{
    lemma_lex_less_irreflexive(x.first);
    lemma_lex_less_irreflexive(x.second);
}

/// What comes before a part comes before all that the part comes before.
pub proof fn lemma_part_less_transitive(x: PartView, y: PartView, z: PartView)
    requires
        part_less(x, y),
        part_less(y, z),
    ensures
        part_less(x, z),
{
    if x.kind == y.kind && y.kind == z.kind {
        if lex_less(x.first, y.first) && lex_less(y.first, z.first) {
            lemma_lex_less_transitive(x.first, y.first, z.first);
        } else if x.first == y.first && y.first == z.first {
            lemma_lex_less_transitive(x.second, y.second, z.second);
        }
    }
}

/// No path comes before itself.
pub proof fn lemma_path_less_irreflexive(a: Seq<PartView>)
    ensures
        !path_less(a, a),
    decreases a.len(),
{
    if a.len() > 0 {
        lemma_path_less_irreflexive(a.drop_first());
    }
}

/// What comes before a path comes before all that the path comes before.
pub proof fn lemma_path_less_transitive(a: Seq<PartView>, b: Seq<PartView>, c: Seq<PartView>)
    requires
        path_less(a, b),
        path_less(b, c),
    ensures
        path_less(a, c),
    decreases a.len(),
{
    if a.len() > 0 {
        let x = a.first();
        let y = b.first();
        let z = c.first();
        if x == y && y == z {
            lemma_path_less_transitive(a.drop_first(), b.drop_first(), c.drop_first());
        } else if x != y && y != z {
            lemma_part_less_transitive(x, y, z);
            if x == z {
                lemma_part_less_irreflexive(x);
            }
        }
    }
}

fn rank_of(kind: PartKind) -> (r: u8)
    ensures
        r == rank(kind),
{
    match kind {
        PartKind::VerbatimPrefix => 0,
        PartKind::VerbatimUncPrefix => 1,
        PartKind::VerbatimDiskPrefix => 2,
        PartKind::DeviceNamespacePrefix => 3,
        PartKind::UncPrefix => 4,
        PartKind::DiskPrefix => 5,
        PartKind::Root => 6,
        PartKind::Current => 7,
        PartKind::Parent => 8,
        PartKind::Normal => 9,
    }
}

/// How the part `x` stands to the part `y`.
pub fn order_of_parts(x: &Part, y: &Part) -> (r: Order)
    ensures
        r == Order::Before <==> part_less(x@, y@),
        r == Order::Same <==> x@ == y@,
        r == Order::After <==> part_less(y@, x@),
{
    let rx = rank_of(x.kind);
    let ry = rank_of(y.kind);
    if rx < ry {
        return Order::Before;
    }
    if ry < rx {
        return Order::After;
    }
    assert(x.kind == y.kind);
    match order_of(x.first.as_str(), y.first.as_str()) {
        Order::Before => Order::Before,
        Order::After => Order::After,
        Order::Same => order_of(x.second.as_str(), y.second.as_str()),
    }
}

/// How the path `a` stands to the path `b`.
pub fn order_of_paths(a: &Vec<Part>, b: &Vec<Part>) -> (r: Order)
    ensures
        r == Order::Before <==> path_less(parts_of(a@), parts_of(b@)),
        r == Order::Same <==> parts_of(a@) == parts_of(b@),
        r == Order::After <==> path_less(parts_of(b@), parts_of(a@)),
{
    let ghost x = parts_of(a@);
    let ghost y = parts_of(b@);
    let mut i: usize = 0;
    proof {
        assert(x.skip(0) == x);
        assert(y.skip(0) == y);
        lemma_path_less_irreflexive(x);
    }
    while i < a.len() && i < b.len()
        invariant
            i <= a@.len(),
            i <= b@.len(),
            x == parts_of(a@),
            y == parts_of(b@),
            x.take(i as int) == y.take(i as int),
            path_less(x, y) == path_less(x.skip(i as int), y.skip(i as int)),
            path_less(y, x) == path_less(y.skip(i as int), x.skip(i as int)),
        decreases a@.len() - i,
    {
        proof {
            assert(x.skip(i as int).drop_first() == x.skip(i + 1));
            assert(y.skip(i as int).drop_first() == y.skip(i + 1));
            assert(x.skip(i as int).first() == a@[i as int]@);
            assert(y.skip(i as int).first() == b@[i as int]@);
            assert(x[i as int] == a@[i as int]@);
            assert(y[i as int] == b@[i as int]@);
        }
        match order_of_parts(&a[i], &b[i]) {
            Order::Before => {
                assert(x != y);
                return Order::Before;
            },
            Order::After => {
                assert(x != y);
                return Order::After;
            },
            Order::Same => {},
        }
        proof {
            assert(x.take(i + 1) == x.take(i as int).push(x[i as int]));
            assert(y.take(i + 1) == y.take(i as int).push(y[i as int]));
        }
        i += 1;
    }
    if a.len() == b.len() {
        proof {
            assert(x.take(i as int) == x);
            assert(y.take(i as int) == y);
        }
        Order::Same
    } else if i == a.len() {
        Order::Before
    } else {
        Order::After
    }
}

} // verus!
