//! What holds of canonical forms, for every pattern.

use crate::pattern::{
    append, consume_spec, elements, extends, fits, is_canonical, normalize_spec, prepend, spell,
    take_from_head, words, SpongeOp, Word,
};
use vstd::prelude::*;

verus! {

/// Whatever a sequence of operations stands for fits in `u32` lengths.
pub proof fn lemma_words_fit(ops: Seq<SpongeOp>)
    ensures
        fits(words(ops)),
        words(ops).len() == ops.len(),
{
}

/// Putting a word in front of a canonical pattern gives a canonical pattern.
pub proof fn lemma_prepend_canonical(w: Word, rest: Seq<Word>)
    requires
        is_canonical(rest),
    ensures
        is_canonical(prepend(w, rest)),
{
    let out = prepend(w, rest);
    if w.len() > 0 {
        // past the first entry, `out` is `rest`, shifted where `w` was not merged
        let shift: int = if rest.len() > 0 && w.same_kind(rest[0]) {
            0
        } else {
            1
        };
        assert forall|i: int, j: int| 0 <= i && j == i + 1 && j < out.len() implies !(
        #[trigger] out[i]).same_kind(#[trigger] out[j]) by {
            assert(out[j] == rest[j - shift]);
            if i > 0 {
                assert(out[i] == rest[i - shift]);
            }
        }
    }
}

/// What follows the first entry of a canonical pattern is canonical.
pub proof fn lemma_canonical_tail(p: Seq<Word>)
    requires
        is_canonical(p),
        p.len() > 0,
    ensures
        is_canonical(p.drop_first()),
{
    let rest = p.drop_first();
    assert forall|i: int, j: int| 0 <= i && j == i + 1 && j < rest.len() implies !(
    #[trigger] rest[i]).same_kind(#[trigger] rest[j]) by {
        assert(rest[i] == p[i + 1]);
        assert(rest[j] == p[j + 1]);
    }
}

/// The canonical form is canonical.
pub proof fn lemma_normalize_canonical(p: Seq<Word>)
    ensures
        is_canonical(normalize_spec(p)),
    decreases p.len(),
{
    if p.len() > 0 {
        lemma_normalize_canonical(p.drop_first());
        lemma_prepend_canonical(p[0], normalize_spec(p.drop_first()));
    }
}

/// A canonical pattern is its own canonical form.
pub proof fn lemma_normalize_fixes_canonical(p: Seq<Word>)
    requires
        is_canonical(p),
    ensures
        normalize_spec(p) == p,
    decreases p.len(),
{
    if p.len() > 0 {
        lemma_canonical_tail(p);
        lemma_normalize_fixes_canonical(p.drop_first());
        assert(seq![p[0]] + p.drop_first() =~= p);
    }
}

/// Normalizing twice is normalizing once.
pub proof fn lemma_normalize_idempotent(p: Seq<Word>)
    ensures
        normalize_spec(normalize_spec(p)) == normalize_spec(p),
{
    lemma_normalize_canonical(p);
    lemma_normalize_fixes_canonical(normalize_spec(p));
}

/// A run of three entries of one kind becomes one entry with the sum of the
/// lengths, as long as the run is not empty altogether.
pub proof fn lemma_normalize_run(kind: Word, a: nat, b: nat, c: nat)
    requires
        a + b + c > 0,
    ensures
        normalize_spec(seq![kind.with_len(a), kind.with_len(b), kind.with_len(c)]) == seq![
            kind.with_len(a + b + c),
        ],
{
    let p = seq![kind.with_len(a), kind.with_len(b), kind.with_len(c)];
    let after_a = p.drop_first();
    let after_b = after_a.drop_first();
    let after_c = after_b.drop_first();
    assert(normalize_spec(after_b) == prepend(kind.with_len(c), normalize_spec(after_c)));
    assert(normalize_spec(after_a) == prepend(kind.with_len(b), normalize_spec(after_b)));
    assert(normalize_spec(p) == prepend(kind.with_len(a), normalize_spec(after_a)));
}

/// Front and back do not get in each other's way.
pub proof fn lemma_prepend_append(h: Word, mid: Seq<Word>, w: Word)
    ensures
        prepend(h, append(mid, w)) == append(prepend(h, mid), w),
{
    // the two meet in one entry only where `mid` has at most one
    if h.len() > 0 && w.len() > 0 && mid.len() <= 1 {
        assert(prepend(h, append(mid, w)) =~= append(prepend(h, mid), w));
    }
}

/// The canonical form can be built from the front as well as from the back.
pub proof fn lemma_normalize_push(p: Seq<Word>, w: Word)
    ensures
        normalize_spec(p.push(w)) == append(normalize_spec(p), w),
    decreases p.len(),
{
    if p.len() == 0 {
        assert(normalize_spec(p.push(w).drop_first()) =~= Seq::empty());
    } else {
        let rest = p.drop_first();
        assert(p.push(w).drop_first() =~= rest.push(w));
        lemma_normalize_push(rest, w);
        lemma_prepend_append(p[0], normalize_spec(rest), w);
    }
}

/// Putting a word behind a pattern leaves its entries where they are, but
/// for the last, which can only grow.
pub proof fn lemma_append_extends(done: Seq<Word>, w: Word)
    ensures
        extends(done, append(done, w)),
{
}

/// Extending twice is extending.
pub proof fn lemma_extends_transitive(a: Seq<Word>, b: Seq<Word>, c: Seq<Word>)
    requires
        extends(a, b),
        extends(b, c),
    ensures
        extends(a, c),
{
}

/// The canonical form of a pattern extends the canonical form of each of its
/// prefixes.
pub proof fn lemma_normalize_prefix(p: Seq<Word>, i: int)
    requires
        0 <= i <= p.len(),
    ensures
        extends(normalize_spec(p.take(i)), normalize_spec(p)),
    decreases p.len() - i,
{
    if i == p.len() {
        assert(p.take(i) =~= p);
    } else {
        assert(p.take(i + 1) =~= p.take(i).push(p[i]));
        lemma_normalize_push(p.take(i), p[i]);
        lemma_append_extends(normalize_spec(p.take(i)), p[i]);
        lemma_normalize_prefix(p, i + 1);
        lemma_extends_transitive(
            normalize_spec(p.take(i)),
            normalize_spec(p.take(i + 1)),
            normalize_spec(p),
        );
    }
}

/// On a canonical pattern an operation touches the first entry alone, and
/// what is left is canonical again, with no length that was not there before.
pub proof fn lemma_consume_canonical(p: Seq<Word>, op: Word)
    requires
        is_canonical(p),
        consume_spec(p, op) is Some,
    ensures
        consume_spec(p, op) == Some(take_from_head(p, op)),
        is_canonical(take_from_head(p, op)),
        fits(p) ==> fits(take_from_head(p, op)),
{
    let left = take_from_head(p, op);
    if op.len() > 0 {
        let rest = p.drop_first();
        let short = (p[0].len() - op.len()) as nat;
        let reduced = p.update(0, op.with_len(short));
        lemma_canonical_tail(p);
        lemma_normalize_fixes_canonical(rest);
        assert(reduced.drop_first() =~= rest);
        if short > 0 {
            assert forall|i: int, j: int| 0 <= i && j == i + 1 && j < left.len() implies !(
            #[trigger] left[i]).same_kind(#[trigger] left[j]) by {
                assert(left[j] == p[j]);
                assert(left[i].same_kind(p[i]));
            }
        }
    }
}

/// Whatever an operation leaves of a canonical pattern is canonical.
pub proof fn lemma_consume_keeps_canonical(p: Seq<Word>, op: Word)
    requires
        is_canonical(p),
    ensures
        consume_spec(p, op) matches Some(left) ==> is_canonical(left),
{
    if consume_spec(p, op) is Some {
        lemma_consume_canonical(p, op);
    }
}

/// The elements of a pattern are those of its first entry, then those of the
/// rest.
pub proof fn lemma_elements_cons(w: Word, rest: Seq<Word>)
    ensures
        elements(seq![w] + rest) == spell(w) + elements(rest),
{
    let p = seq![w] + rest;
    assert(p.drop_first() =~= rest);
}

/// Putting a word in front of a pattern puts its elements in front of the
/// pattern's.
pub proof fn lemma_prepend_elements(w: Word, rest: Seq<Word>)
    ensures
        elements(prepend(w, rest)) == spell(w) + elements(rest),
{
    if w.len() == 0 {
        assert(spell(w) =~= Seq::empty());
    } else if rest.len() > 0 && w.same_kind(rest[0]) {
        let merged = w.with_len(w.len() + rest[0].len());
        lemma_elements_cons(merged, rest.drop_first());
        assert(spell(merged) =~= spell(w) + spell(rest[0]));
    } else {
        lemma_elements_cons(w, rest);
    }
}

/// The canonical form stands for the same elements, in the same order.
pub proof fn lemma_normalize_keeps_elements(p: Seq<Word>)
    ensures
        elements(normalize_spec(p)) == elements(p),
    decreases p.len(),
{
    if p.len() > 0 {
        lemma_normalize_keeps_elements(p.drop_first());
        lemma_prepend_elements(p[0], normalize_spec(p.drop_first()));
    }
}

/// Where a canonical pattern starts, its elements start: with as many
/// elements as the first entry has, of its kind, and then one of the other
/// kind or none at all.
pub proof fn lemma_elements_head(p: Seq<Word>)
    requires
        is_canonical(p),
        p.len() > 0,
    ensures
        elements(p).len() >= p[0].len(),
        forall|i: int| 0 <= i < p[0].len() ==> #[trigger] elements(p)[i] == p[0].with_len(1),
        elements(p).len() > p[0].len() ==> !elements(p)[p[0].len() as int].same_kind(p[0]),
        elements(p).skip(p[0].len() as int) == elements(p.drop_first()),
{
    let rest = p.drop_first();
    if rest.len() > 0 {
        assert(elements(p)[p[0].len() as int] == elements(rest)[0]);
    } else {
        assert(elements(rest) =~= Seq::empty());
    }
}

/// Two canonical patterns that stand for the same elements are one pattern:
/// the canonical form of a pattern is the one canonical way to write what it
/// stands for.
pub proof fn lemma_canonical_unique(a: Seq<Word>, b: Seq<Word>)
    requires
        is_canonical(a),
        is_canonical(b),
        elements(a) == elements(b),
    ensures
        a == b,
    decreases a.len(),
{
    if a.len() == 0 {
        if b.len() > 0 {
            lemma_elements_head(b);
        }
        assert(a =~= b);
    } else {
        lemma_elements_head(a);
        lemma_elements_head(b);
        assert(elements(a)[0] == a[0].with_len(1));
        assert(elements(b)[0] == b[0].with_len(1));
        // the shorter first entry would be followed by the other kind, or by
        // nothing, where the longer still goes on
        if a[0].len() < b[0].len() {
            assert(elements(b)[a[0].len() as int] == b[0].with_len(1));
        }
        if b[0].len() < a[0].len() {
            assert(elements(a)[b[0].len() as int] == a[0].with_len(1));
        }
        assert(a[0] == b[0]);
        lemma_canonical_tail(a);
        lemma_canonical_tail(b);
        lemma_canonical_unique(a.drop_first(), b.drop_first());
        assert(a =~= seq![a[0]] + a.drop_first());
        assert(b =~= seq![b[0]] + b.drop_first());
    }
}

/// What an operation leaves of a pattern stands for the pattern's elements
/// without the elements of the operation, which came first.
pub proof fn lemma_consume_takes_elements(p: Seq<Word>, op: Word)
    requires
        consume_spec(p, op) is Some,
    ensures
        elements(p) == spell(op) + elements(consume_spec(p, op).unwrap()),
{
    if op.len() > 0 {
        let short = op.with_len((p[0].len() - op.len()) as nat);
        let reduced = p.update(0, short);
        lemma_normalize_keeps_elements(reduced);
        assert(reduced.drop_first() =~= p.drop_first());
        assert(spell(p[0]) =~= spell(op) + spell(short));
    }
}

} // verus!
