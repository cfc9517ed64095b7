//! Peephole optimization pass.
//!
//! Applied after register allocation and spill insertion, before codegen.
//! Eliminates two patterns:
//! - Self-moves: `Move { dst: r, src: r }` where dst == src
//! - Jump-to-next: `Jump { target: L }` where Label L immediately follows
//!   (with only other Labels in between)
//!
//! Removing unreachable code is out of scope: a jump that directly follows
//! another unconditional jump is left as it is.

use vstd::prelude::*;

verus! {

/// A jump target in the linear IR.
#[derive(Clone, Copy, Debug, PartialEq, Eq, Structural)]
pub struct IrLabel(pub usize);

/// An instruction of the linear IR over physical registers.
#[derive(Clone, Copy, Debug, PartialEq, Eq, Structural)]
pub enum IrInstr {
    /// Load constant number `index` into register `dst`.
    LoadImm { dst: usize, index: usize },
    /// Copy register `src` into register `dst`.
    Move { dst: usize, src: usize },
    /// Unconditional jump.
    Jump { target: IrLabel },
    /// Jump when register `src` holds a false value.
    JumpIfFalse { src: usize, target: IrLabel },
    /// A jump target; executes nothing.
    Label { label: IrLabel },
    /// Return the value in register `src`.
    Return { src: usize },
}

/// A move of a register onto itself.
pub open spec fn is_self_move(instr: IrInstr) -> bool {
    instr matches IrInstr::Move { dst, src } && dst == src
}

/// An unconditional jump.
pub open spec fn is_jump(instr: IrInstr) -> bool {
    instr is Jump
}

/// Control that falls through from just after position `at` meets
/// `Label { target }` having passed nothing but labels.
pub open spec fn reaches_label(s: Seq<IrInstr>, at: int, target: IrLabel) -> bool {
    exists|k: int|
        #![trigger s[k]]
        at < k < s.len() && s[k] == (IrInstr::Label { label: target }) && forall|m: int|
            at < m < k ==> #[trigger] s[m] is Label
}

/// The instruction at `i` does nothing and is removed: a self-move, or an
/// unconditional jump to a label that control reaches anyway, unless it
/// directly follows another unconditional jump.
pub open spec fn is_redundant(s: Seq<IrInstr>, i: int) -> bool {
    ||| is_self_move(s[i])
    ||| {
        &&& s[i] matches IrInstr::Jump { target } && reaches_label(s, i, target)
        &&& !(i > 0 && is_jump(s[i - 1]))
    }
}

/// The instructions among the first `n` of `s` that are not redundant, in order.
pub open spec fn kept_prefix(s: Seq<IrInstr>, n: int) -> Seq<IrInstr>
    decreases n,
{
    if n <= 0 {
        seq![]
    } else if is_redundant(s, n - 1) {
        kept_prefix(s, n - 1)
    } else {
        kept_prefix(s, n - 1).push(s[n - 1])
    }
}

/// `s` with every redundant instruction removed.
pub open spec fn peephole(s: Seq<IrInstr>) -> Seq<IrInstr> {
    kept_prefix(s, s.len() as int)
}

/// Whether control falling through from just after `at` reaches
/// `Label { target }` passing only labels.
fn label_follows(instrs: &Vec<IrInstr>, at: usize, target: IrLabel) -> (found: bool)
    requires
        at < instrs@.len(),
    ensures
        found == reaches_label(instrs@, at as int, target),
{
    let n = instrs.len();
    let mut j = at + 1;
    while j < instrs.len()
        invariant
            at < j <= instrs@.len(),
            forall|m: int|
                at < m < j ==> #[trigger] instrs@[m] is Label && instrs@[m] != (IrInstr::Label {
                    label: target,
                }),
        decreases instrs@.len() - j,
    {
        match instrs[j] {
            IrInstr::Label { label } => {
                if label == target {
                    assert(instrs@[j as int] == (IrInstr::Label { label: target }));
                    return true;
                }
                j = j + 1;
            },
            _ => {
                assert forall|k: int|
                    at < k < instrs@.len() && instrs@[k] == (IrInstr::Label {
                        label: target,
                    }) implies !(forall|m: int| at < m < k ==> #[trigger] instrs@[m] is Label) by {
                    if k > j {
                        assert(!(instrs@[j as int] is Label));
                    }
                }
                return false;
            },
        }
    }
    false
}

/// Run all peephole optimizations on a linear instruction stream.
/// Returns a new Vec with wasteful instructions removed.
pub fn run(instrs: Vec<IrInstr>) -> (output: Vec<IrInstr>)
    ensures
        output@ == peephole(instrs@),
{
    let mut output: Vec<IrInstr> = Vec::new();
    let mut i: usize = 0;
    while i < instrs.len()
        invariant
            i <= instrs@.len(),
            output@ == kept_prefix(instrs@, i as int),
        decreases instrs@.len() - i,
    {
        match instrs[i] {
            // Drop self-moves: Move { dst: r, src: r }
            IrInstr::Move { dst, src } if dst == src => {},
            // Drop unconditional jumps whose target label immediately follows
            // (with only Label instructions in between), unless the jump
            // directly follows another unconditional jump
            IrInstr::Jump { target } => {
                let after_jump = i > 0 && match instrs[i - 1] {
                    IrInstr::Jump { .. } => true,
                    _ => false,
                };
                if after_jump || !label_follows(&instrs, i, target) {
                    output.push(instrs[i]);
                }
            },
            _ => {
                output.push(instrs[i]);
            },
        }
        i = i + 1;
    }
    output
}

/// Filtering a sequence that ends in `e` filters the rest, then keeps `e`
/// when it passes.
proof fn lemma_filter_push(x: Seq<IrInstr>, e: IrInstr, pred: spec_fn(IrInstr) -> bool)
    ensures
        x.push(e).filter(pred) == if pred(e) {
            x.filter(pred).push(e)
        } else {
            x.filter(pred)
        },
{
    reveal(Seq::filter);
    assert(x.push(e).drop_last() =~= x);
}

/// No self-move survives the pass.
pub proof fn lemma_peephole_no_self_moves(s: Seq<IrInstr>)
    ensures
        forall|k: int| 0 <= k < peephole(s).len() ==> !is_self_move(#[trigger] peephole(s)[k]),
{
    lemma_kept_prefix_no_self_moves(s, s.len() as int);
}

proof fn lemma_kept_prefix_no_self_moves(s: Seq<IrInstr>, n: int)
    requires
        n <= s.len(),
    ensures
        forall|k: int|
            0 <= k < kept_prefix(s, n).len() ==> !is_self_move(#[trigger] kept_prefix(s, n)[k]),
    decreases n,
{
    if n > 0 {
        lemma_kept_prefix_no_self_moves(s, n - 1);
        let prev = kept_prefix(s, n - 1);
        if !is_redundant(s, n - 1) {
            assert forall|k: int| 0 <= k < kept_prefix(s, n).len() implies !is_self_move(
                #[trigger] kept_prefix(s, n)[k],
            ) by {
                if k < prev.len() {
                    assert(kept_prefix(s, n)[k] == prev[k]);
                }
            }
        }
    }
}

/// The pass removes only unconditional jumps and self-moves: every other
/// instruction (labels, conditional jumps, real moves, loads, returns)
/// survives, in its original order.
pub proof fn lemma_peephole_keeps_other_instrs(s: Seq<IrInstr>)
    ensures
        peephole(s).filter(|x: IrInstr| !is_jump(x)) == s.filter(
            |x: IrInstr| !is_jump(x) && !is_self_move(x),
        ),
{
    lemma_kept_prefix_filter(s, s.len() as int);
    assert(s.take(s.len() as int) =~= s);
}

proof fn lemma_kept_prefix_filter(s: Seq<IrInstr>, n: int)
    requires
        0 <= n <= s.len(),
    ensures
        kept_prefix(s, n).filter(|x: IrInstr| !is_jump(x)) == s.take(n).filter(
            |x: IrInstr| !is_jump(x) && !is_self_move(x),
        ),
    decreases n,
{
    let p = |x: IrInstr| !is_jump(x);
    let q = |x: IrInstr| !is_jump(x) && !is_self_move(x);
    if n == 0 {
        reveal(Seq::filter);
        assert(s.take(0) =~= Seq::<IrInstr>::empty());
    } else {
        lemma_kept_prefix_filter(s, n - 1);
        assert(s.take(n) =~= s.take(n - 1).push(s[n - 1]));
        lemma_filter_push(s.take(n - 1), s[n - 1], q);
        if !is_redundant(s, n - 1) {
            lemma_filter_push(kept_prefix(s, n - 1), s[n - 1], p);
        }
    }
}

/// The pass never lengthens the stream.
pub proof fn lemma_peephole_len(s: Seq<IrInstr>)
    ensures
        peephole(s).len() <= s.len(),
{
    lemma_kept_prefix_len(s, s.len() as int);
}

proof fn lemma_kept_prefix_len(s: Seq<IrInstr>, n: int)
    requires
        0 <= n,
    ensures
        kept_prefix(s, n).len() <= n,
    decreases n,
{
    if n > 0 {
        lemma_kept_prefix_len(s, n - 1);
    }
}

/// A stream with nothing redundant in it passes through unchanged.
pub proof fn lemma_peephole_identity(s: Seq<IrInstr>)
    requires
        forall|i: int| 0 <= i < s.len() ==> !is_redundant(s, i),
    ensures
        peephole(s) == s,
{
    lemma_kept_prefix_identity(s, s.len() as int);
    assert(s.take(s.len() as int) =~= s);
}

proof fn lemma_kept_prefix_identity(s: Seq<IrInstr>, n: int)
    requires
        0 <= n <= s.len(),
        forall|i: int| 0 <= i < s.len() ==> !is_redundant(s, i),
    ensures
        kept_prefix(s, n) == s.take(n),
    decreases n,
{
    if n == 0 {
        assert(s.take(0) =~= Seq::<IrInstr>::empty());
    } else {
        lemma_kept_prefix_identity(s, n - 1);
        assert(s.take(n) =~= s.take(n - 1).push(s[n - 1]));
    }
}

/// Where `c` starts with an instruction that is not a label, the fate of each
/// instruction of `a` in `a + c` is its fate in `a` alone.
proof fn lemma_redundant_before_barrier(a: Seq<IrInstr>, c: Seq<IrInstr>, p: int)
    requires
        c.len() > 0,
        !(c[0] is Label),
        0 <= p < a.len(),
    ensures
        is_redundant(a + c, p) == is_redundant(a, p),
{
    let s = a + c;
    assert(s[p] == a[p]);
    if p > 0 {
        assert(s[p - 1] == a[p - 1]);
    }
    if let IrInstr::Jump { target } = a[p] {
        if reaches_label(a, p, target) {
            let k = choose|k: int|
                #![trigger a[k]]
                p < k < a.len() && a[k] == (IrInstr::Label { label: target }) && forall|m: int|
                    p < m < k ==> #[trigger] a[m] is Label;
            assert(s[k] == a[k]);
            assert forall|m: int| p < m < k implies #[trigger] s[m] is Label by {
                assert(s[m] == a[m]);
                assert(a[m] is Label);
            }
        }
        if reaches_label(s, p, target) {
            let k = choose|k: int|
                #![trigger s[k]]
                p < k < s.len() && s[k] == (IrInstr::Label { label: target }) && forall|m: int|
                    p < m < k ==> #[trigger] s[m] is Label;
            if k >= a.len() {
                assert(s[a.len() as int] == c[0]);
                if k > a.len() {
                    assert(s[a.len() as int] is Label);
                }
                assert(false);
            }
            assert(a[k] == s[k]);
            assert forall|m: int| p < m < k implies #[trigger] a[m] is Label by {
                assert(s[m] == a[m]);
                assert(s[m] is Label);
            }
        }
    }
}

/// The fate of each instruction of `c` in `a + c` is its fate in `c` alone,
/// unless `c` starts with a jump right after a jump that ends `a`.
proof fn lemma_redundant_after(a: Seq<IrInstr>, c: Seq<IrInstr>, q: int)
    requires
        0 <= q < c.len(),
        q > 0 || a.len() == 0 || !(c[0] is Jump) || !(a.last() is Jump),
    ensures
        is_redundant(a + c, a.len() + q) == is_redundant(c, q),
{
    let s = a + c;
    let p = a.len() + q;
    assert(s[p] == c[q]);
    if q > 0 {
        assert(s[p - 1] == c[q - 1]);
    } else if a.len() > 0 {
        assert(s[p - 1] == a.last());
    }
    if let IrInstr::Jump { target } = c[q] {
        if reaches_label(c, q, target) {
            let k = choose|k: int|
                #![trigger c[k]]
                q < k < c.len() && c[k] == (IrInstr::Label { label: target }) && forall|m: int|
                    q < m < k ==> #[trigger] c[m] is Label;
            assert(s[a.len() + k] == c[k]);
            assert forall|m: int| p < m < a.len() + k implies #[trigger] s[m] is Label by {
                assert(s[m] == c[m - a.len()]);
                assert(c[m - a.len()] is Label);
            }
        }
        if reaches_label(s, p, target) {
            let k = choose|k: int|
                #![trigger s[k]]
                p < k < s.len() && s[k] == (IrInstr::Label { label: target }) && forall|m: int|
                    p < m < k ==> #[trigger] s[m] is Label;
            assert(c[k - a.len()] == s[k]);
            assert forall|m: int| q < m < k - a.len() implies #[trigger] c[m] is Label by {
                assert(s[m + a.len()] == c[m]);
                assert(s[m + a.len()] is Label);
            }
        }
    }
}

/// Two streams that agree on the first `n` instructions and on their fates
/// keep the same instructions among them.
proof fn lemma_kept_prefix_agree(s1: Seq<IrInstr>, s2: Seq<IrInstr>, n: int)
    requires
        0 <= n <= s1.len(),
        n <= s2.len(),
        forall|p: int| 0 <= p < n ==> s1[p] == s2[p],
        forall|p: int| 0 <= p < n ==> is_redundant(s1, p) == is_redundant(s2, p),
    ensures
        kept_prefix(s1, n) == kept_prefix(s2, n),
    decreases n,
{
    if n > 0 {
        lemma_kept_prefix_agree(s1, s2, n - 1);
    }
}

/// The instructions of `a + c` past `a` are kept as in `c` alone, given they
/// meet the same fates there.
proof fn lemma_kept_prefix_shift(a: Seq<IrInstr>, c: Seq<IrInstr>, n: int)
    requires
        0 <= n <= c.len(),
        forall|q: int| 0 <= q < n ==> is_redundant(a + c, a.len() + q) == is_redundant(c, q),
    ensures
        kept_prefix(a + c, a.len() + n) == kept_prefix(a + c, a.len() as int) + kept_prefix(c, n),
    decreases n,
{
    if n == 0 {
        assert(kept_prefix(c, 0) =~= Seq::<IrInstr>::empty());
        assert(kept_prefix(a + c, a.len() as int) + kept_prefix(c, 0) =~= kept_prefix(
            a + c,
            a.len() as int,
        ));
    } else {
        lemma_kept_prefix_shift(a, c, n - 1);
        assert((a + c)[a.len() + n - 1] == c[n - 1]);
        let head = kept_prefix(a + c, a.len() as int);
        assert(head + kept_prefix(c, n - 1).push(c[n - 1]) =~= (head + kept_prefix(c, n - 1)).push(
            c[n - 1],
        ));
    }
}

/// The pass works locally: a stream cut just before an instruction that is
/// not a label is cleaned piece by piece, unless the cut falls between two
/// unconditional jumps. No instruction is removed for what lies past an
/// instruction that is not a label.
pub proof fn lemma_peephole_split(a: Seq<IrInstr>, c: Seq<IrInstr>)
    requires
        c.len() > 0,
        !(c[0] is Label),
        a.len() == 0 || !(c[0] is Jump) || !(a.last() is Jump),
    ensures
        peephole(a + c) == peephole(a) + peephole(c),
{
    let s = a + c;
    assert forall|p: int| 0 <= p < a.len() implies s[p] == a[p] && is_redundant(s, p)
        == is_redundant(a, p) by {
        lemma_redundant_before_barrier(a, c, p);
    }
    lemma_kept_prefix_agree(s, a, a.len() as int);
    assert forall|q: int| 0 <= q < c.len() implies is_redundant(s, a.len() + q) == is_redundant(
        c,
        q,
    ) by {
        lemma_redundant_after(a, c, q);
    }
    lemma_kept_prefix_shift(a, c, c.len() as int);
}

/// An unconditional jump followed at once by its own target label is
/// removed, and the label stays, unless the jump directly follows another
/// unconditional jump.
pub proof fn lemma_peephole_drops_jump_to_next(a: Seq<IrInstr>, target: IrLabel)
    requires
        a.len() == 0 || !(a.last() is Jump),
    ensures
        peephole(
            a + seq![IrInstr::Jump { target }, IrInstr::Label { label: target }],
        ) == peephole(a).push(IrInstr::Label { label: target }),
{
    let c = seq![IrInstr::Jump { target }, IrInstr::Label { label: target }];
    lemma_peephole_split(a, c);
    assert(reaches_label(c, 0, target)) by {
        assert(c[1] == (IrInstr::Label { label: target }));
    }
    assert(is_redundant(c, 0));
    assert(!is_redundant(c, 1));
    assert(kept_prefix(c, 0) =~= Seq::<IrInstr>::empty());
    assert(kept_prefix(c, 1) == kept_prefix(c, 0));
    assert(kept_prefix(c, 2) =~= seq![IrInstr::Label { label: target }]);
    assert(peephole(c) =~= seq![IrInstr::Label { label: target }]);
    assert(peephole(a) + seq![IrInstr::Label { label: target }] =~= peephole(a).push(
        IrInstr::Label { label: target },
    ));
}

} // verus!
