//! The truth-table driver: collects the distinct letters of a formula in
//! ascending order, enumerates every assignment of truth values to them in a
//! fixed bit order — row 0 is all-false, the last row all-true — and renders
//! one line per assignment under a header line.

use vstd::prelude::*;

use vstd::arithmetic::power2::pow2;

use crate::alphabet::Alphabet;
use crate::eval::{spec_tf_cells, Interpretation};
use crate::formula::{chars_to_string, Formula};

verus! {

/// Strictly ascending order of characters: sorted and free of duplicates.
pub open spec fn spec_sorted(s: Seq<char>) -> bool {
    forall|i: int, j: int| 0 <= i < j < s.len() ==> s[i] < s[j]
}

/// The sequence `s` with `c` placed at its ascending position; `s` is left
/// as it is when it already holds `c`.
pub open spec fn spec_insert_sorted(s: Seq<char>, c: char) -> Seq<char>
    decreases s.len(),
{
    if s.len() == 0 {
        seq![c]
    } else if c == s[0] {
        s
    } else if c < s[0] {
        seq![c] + s
    } else {
        seq![s[0]] + spec_insert_sorted(s.drop_first(), c)
    }
}

/// The letters of the formula, folded into an accumulator one ascending
/// insertion at a time, left to right through the tree.
pub open spec fn spec_collect_letters(f: Formula, acc: Seq<char>) -> Seq<char>
    decreases f,
{
    match f {
        Formula::Letter(c) => spec_insert_sorted(acc, c),
        Formula::True => acc,
        Formula::False => acc,
        Formula::Negation(sub) => spec_collect_letters(*sub, acc),
        Formula::SecondaryFunc { name: _, lhs, rhs } => spec_collect_letters(
            *rhs,
            spec_collect_letters(*lhs, acc),
        ),
    }
}

/// An ascending insertion keeps the order strict and adds exactly the new
/// character to the contents.
proof fn lemma_insert_sorted_props(s: Seq<char>, c: char)
    requires
        spec_sorted(s),
    ensures
        spec_sorted(spec_insert_sorted(s, c)),
        spec_insert_sorted(s, c).to_set() == s.to_set().insert(c),
    decreases s.len(),
{
    let r = spec_insert_sorted(s, c);
    if s.len() == 0 {
        assert(r =~= seq![c]);
        assert(r.contains(c)) by {
            assert(r[0] == c);
        }
        assert forall|x: char| r.contains(x) implies x == c by {
            let k = choose|k: int| 0 <= k < r.len() && r[k] == x;
            assert(k == 0);
        }
        assert(r.to_set() =~= s.to_set().insert(c));
    } else if c == s[0] {
        assert(s.to_set().contains(c));
        assert(r.to_set() =~= s.to_set().insert(c));
    } else if c < s[0] {
        assert(r == seq![c] + s);
        assert forall|i: int, j: int| 0 <= i < j < r.len() implies r[i] < r[j] by {
            if i == 0 {
                assert(r[j] == s[j - 1]);
                if j > 1 {
                    assert(s[0] < s[j - 1]);
                }
            }
        }
        assert forall|x: char| r.to_set().contains(x) implies s.to_set().insert(c).contains(
            x,
        ) by {
            let k = choose|k: int| 0 <= k < r.len() && r[k] == x;
            if k > 0 {
                assert(s[k - 1] == x);
                assert(s.contains(x));
            }
        }
        assert forall|x: char| s.to_set().insert(c).contains(x) implies r.to_set().contains(
            x,
        ) by {
            if x == c {
                assert(r[0] == x);
                assert(r.contains(x));
            } else {
                let k = choose|k: int| 0 <= k < s.len() && s[k] == x;
                assert(r[k + 1] == x);
                assert(r.contains(x));
            }
        }
        assert(r.to_set() =~= s.to_set().insert(c));
    } else {
        let tail = s.drop_first();
        assert(spec_sorted(tail));
        lemma_insert_sorted_props(tail, c);
        let rt = spec_insert_sorted(tail, c);
        assert(r == seq![s[0]] + rt);
        assert forall|i: int, j: int| 0 <= i < j < r.len() implies r[i] < r[j] by {
            if i == 0 {
                assert(r[j] == rt[j - 1]);
                assert(rt.to_set().contains(rt[j - 1]));
                assert(rt.to_set() == tail.to_set().insert(c));
                if rt[j - 1] != c {
                    assert(tail.to_set().contains(rt[j - 1]));
                    let k = choose|k: int| 0 <= k < tail.len() && tail[k] == rt[j - 1];
                    assert(s[k + 1] == rt[j - 1]);
                    assert(s[0] < s[k + 1]);
                }
            } else {
                assert(r[i] == rt[i - 1] && r[j] == rt[j - 1]);
            }
        }
        assert forall|x: char| r.to_set().contains(x) implies s.to_set().insert(c).contains(
            x,
        ) by {
            let k = choose|k: int| 0 <= k < r.len() && r[k] == x;
            if k == 0 {
                assert(s.to_set().contains(s[0]));
            } else {
                assert(rt[k - 1] == x);
                assert(rt.to_set().contains(x));
                if x != c {
                    assert(tail.to_set().contains(x));
                    let m = choose|m: int| 0 <= m < tail.len() && tail[m] == x;
                    assert(s[m + 1] == x);
                    assert(s.to_set().contains(x));
                }
            }
        }
        assert forall|x: char| s.to_set().insert(c).contains(x) implies r.to_set().contains(
            x,
        ) by {
            if x == c {
                assert(rt.to_set().contains(c));
                let m = choose|m: int| 0 <= m < rt.len() && rt[m] == x;
                assert(r[m + 1] == x);
            } else {
                let k = choose|k: int| 0 <= k < s.len() && s[k] == x;
                if k == 0 {
                    assert(r[0] == x);
                } else {
                    assert(tail[k - 1] == x);
                    assert(tail.to_set().contains(x));
                    assert(rt.to_set().contains(x));
                    let m = choose|m: int| 0 <= m < rt.len() && rt[m] == x;
                    assert(r[m + 1] == x);
                }
            }
        }
        assert(r.to_set() =~= s.to_set().insert(c));
    }
}

/// Folding a formula's letters into a strictly ascending accumulator keeps
/// it strictly ascending and adds exactly the formula's letters.
proof fn lemma_collect_letters_props(f: Formula, acc: Seq<char>)
    requires
        spec_sorted(acc),
    ensures
        spec_sorted(spec_collect_letters(f, acc)),
        spec_collect_letters(f, acc).to_set() == acc.to_set() + f.spec_letters(),
    decreases f,
{
    match f {
        Formula::Letter(c) => {
            lemma_insert_sorted_props(acc, c);
            assert(spec_insert_sorted(acc, c).to_set() =~= acc.to_set() + f.spec_letters());
        },
        Formula::True => {
            assert(spec_collect_letters(f, acc).to_set() =~= acc.to_set() + f.spec_letters());
        },
        Formula::False => {
            assert(spec_collect_letters(f, acc).to_set() =~= acc.to_set() + f.spec_letters());
        },
        Formula::Negation(sub) => {
            lemma_collect_letters_props(*sub, acc);
        },
        Formula::SecondaryFunc { name: _, lhs, rhs } => {
            lemma_collect_letters_props(*lhs, acc);
            lemma_collect_letters_props(*rhs, spec_collect_letters(*lhs, acc));
            assert(spec_collect_letters(f, acc).to_set() =~= acc.to_set() + f.spec_letters());
        },
    }
}

/// Splitting an ascending insertion at a prefix whose characters all come
/// before `c`: the prefix is kept and the insertion happens in the rest.
proof fn lemma_insert_sorted_split(s: Seq<char>, c: char, i: int)
    requires
        0 <= i <= s.len(),
        forall|k: int| 0 <= k < i ==> s[k] < c,
    ensures
        spec_insert_sorted(s, c) == s.take(i) + spec_insert_sorted(s.skip(i), c),
    decreases i,
{
    if i == 0 {
        assert(s.take(0) =~= Seq::<char>::empty());
        assert(s.skip(0) =~= s);
        assert(s.take(0) + spec_insert_sorted(s, c) =~= spec_insert_sorted(s, c));
    } else {
        assert(s[0] < c);
        let tail = s.drop_first();
        assert(forall|k: int| 0 <= k < i - 1 ==> tail[k] == s[k + 1] && tail[k] < c);
        lemma_insert_sorted_split(tail, c, i - 1);
        assert(tail.take(i - 1) =~= s.take(i).drop_first());
        assert(tail.skip(i - 1) =~= s.skip(i));
        assert(spec_insert_sorted(s, c) == seq![s[0]] + spec_insert_sorted(tail, c));
        assert(seq![s[0]] + (tail.take(i - 1) + spec_insert_sorted(tail.skip(i - 1), c)) =~= s.take(
            i,
        ) + spec_insert_sorted(s.skip(i), c));
    }
}

fn insert_letter(v: &mut Vec<char>, c: char)
    ensures
        final(v)@ == spec_insert_sorted(old(v)@, c),
{
    let mut i: usize = 0;
    while i < v.len() && v[i] < c
        invariant
            i <= v@.len(),
            v@ == old(v)@,
            forall|k: int| 0 <= k < i ==> v@[k] < c,
        decreases v@.len() - i,
    {
        i += 1;
    }
    proof {
        lemma_insert_sorted_split(v@, c, i as int);
    }
    if i < v.len() && v[i] == c {
        proof {
            assert(v@.skip(i as int)[0] == c);
            assert(spec_insert_sorted(v@.skip(i as int), c) == v@.skip(i as int));
            assert(v@.take(i as int) + v@.skip(i as int) =~= v@);
        }
    } else {
        proof {
            if i < v@.len() {
                assert(v@.skip(i as int)[0] == v@[i as int]);
                assert(spec_insert_sorted(v@.skip(i as int), c) == seq![c] + v@.skip(i as int));
            } else {
                assert(v@.skip(i as int) =~= Seq::<char>::empty());
                assert(spec_insert_sorted(v@.skip(i as int), c) == seq![c]);
            }
            assert(old(v)@.insert(i as int, c) =~= v@.take(i as int) + spec_insert_sorted(
                v@.skip(i as int),
                c,
            ));
        }
        v.insert(i, c);
    }
}

impl Formula {
    fn collect_letters(&self, acc: &mut Vec<char>)
        ensures
            final(acc)@ == spec_collect_letters(*self, old(acc)@),
        decreases self,
    {
        match self {
            Formula::Letter(c) => insert_letter(acc, *c),
            Formula::True => {},
            Formula::False => {},
            Formula::Negation(sub) => sub.collect_letters(acc),
            Formula::SecondaryFunc { name: _, lhs, rhs } => {
                lhs.collect_letters(acc);
                rhs.collect_letters(acc);
            },
        }
    }

    /// The distinct letters of the formula, in ascending order.
    pub open spec fn spec_letter_seq(self) -> Seq<char> {
        spec_collect_letters(self, Seq::empty())
    }

    /// Collects the distinct letters appearing in the formula, ascending by
    /// character, duplicates merged.
    pub fn letters(&self) -> (r: Vec<char>)
        ensures
            r@ == self.spec_letter_seq(),
            spec_sorted(r@),
            r@.no_duplicates(),
            r@.to_set() == self.spec_letters(),
    {
        let mut v: Vec<char> = Vec::new();
        self.collect_letters(&mut v);
        proof {
            lemma_collect_letters_props(*self, Seq::empty());
            assert(Seq::<char>::empty().to_set() =~= Set::<char>::empty());
            assert(v@.to_set() =~= self.spec_letters());
        }
        v
    }
}

/// Whether bit `sh` of the row index `i` is set.
pub open spec fn spec_bit(i: u64, sh: u64) -> bool
    recommends
        sh < 64,
{
    i & (1u64 << sh) != 0
}

/// The assignment of row `i` over the ascending letters: the letter at
/// index `j` reads bit `n - 1 - j` of `i`, the first letter the
/// most-significant used bit.
pub open spec fn spec_row_map(letters: Seq<char>, i: u64) -> Map<char, bool> {
    Map::new(
        |c: char| letters.contains(c),
        |c: char| spec_bit(i, (letters.len() - 1 - letters.index_of(c)) as u64),
    )
}

/// The assignment of row `i` restricted to the first `j` letters.
spec fn spec_partial_row_map(letters: Seq<char>, i: u64, j: int) -> Map<char, bool> {
    Map::new(
        |c: char| letters.take(j).contains(c),
        |c: char| spec_bit(i, (letters.len() - 1 - letters.index_of(c)) as u64),
    )
}

/// Builds the interpretation of one table row from the ascending letters.
fn build_row_interpretation(letters: &Vec<char>, i: u64) -> (r: Interpretation)
    requires
        letters@.no_duplicates(),
        letters@.len() < 64,
    ensures
        r@ == spec_row_map(letters@, i),
{
    let n = letters.len();
    let mut interp = Interpretation::new();
    proof {
        assert(letters@.take(0) =~= Seq::<char>::empty());
        assert(interp@ =~= spec_partial_row_map(letters@, i, 0));
    }
    let mut j: usize = 0;
    while j < n
        invariant
            j <= n,
            n == letters@.len(),
            n < 64,
            letters@.no_duplicates(),
            interp@ == spec_partial_row_map(letters@, i, j as int),
        decreases n - j,
    {
        let sh: u64 = (n - 1 - j) as u64;
        let b = i & (1u64 << sh) != 0;
        let c = letters[j];
        interp.insert(c, b);
        proof {
            let ghost l = letters@;
            assert(l.contains(c)) by {
                assert(l[j as int] == c);
            }
            let idx = l.index_of(c);
            assert(0 <= idx < l.len() && l[idx] == c);
            assert(idx == j as int);
            assert forall|x: char| #[trigger] l.take(j + 1).contains(x) implies l.take(
                j as int,
            ).contains(x) || x == c by {
                let k = choose|k: int| 0 <= k < j + 1 && #[trigger] l.take(j + 1)[k] == x;
                if k < j {
                    assert(l.take(j as int)[k] == x);
                }
            }
            assert forall|x: char| l.take(j as int).contains(x) implies l.take(j + 1).contains(
                x,
            ) by {
                let k = choose|k: int| 0 <= k < j && l.take(j as int)[k] == x;
                assert(l.take(j + 1)[k] == x);
            }
            assert(l.take(j + 1).contains(c)) by {
                assert(l.take(j + 1)[j as int] == c);
            }
            assert(interp@ =~= spec_partial_row_map(l, i, j + 1));
        }
        j += 1;
    }
    proof {
        assert(letters@.take(n as int) =~= letters@);
        assert(interp@ =~= spec_row_map(letters@, i));
    }
    interp
}

/// The letter columns of the header line: each letter and a space.
pub open spec fn spec_letter_header(letters: Seq<char>) -> Seq<char>
    decreases letters.len(),
{
    if letters.len() == 0 {
        Seq::empty()
    } else {
        seq![letters[0], ' '] + spec_letter_header(letters.drop_first())
    }
}

/// A token sequence padded for tabular alignment: each glyph and a space,
/// so that the truth-value cells of the rows line up underneath.
pub open spec fn spec_padded_tokens(s: Seq<Alphabet>) -> Seq<char>
    decreases s.len(),
{
    if s.len() == 0 {
        Seq::empty()
    } else {
        seq![s[0].spec_char(), ' '] + spec_padded_tokens(s.drop_first())
    }
}

/// The letter columns of the data row with index `i`, from the letter at
/// index `j` on: `T` or `F` per bit, and a space.
pub open spec fn spec_letter_values(letters: Seq<char>, i: u64, j: int) -> Seq<char>
    decreases letters.len() - j,
{
    if j < 0 || j >= letters.len() {
        Seq::empty()
    } else {
        let cell: char = if spec_bit(i, (letters.len() - 1 - j) as u64) {
            'T'
        } else {
            'F'
        };
        seq![cell, ' '] + spec_letter_values(letters, i, j + 1)
    }
}

/// Lines joined with one newline after every line, the last included.
pub open spec fn spec_join_lines(lines: Seq<Seq<char>>) -> Seq<char>
    decreases lines.len(),
{
    if lines.len() == 0 {
        Seq::empty()
    } else {
        lines[0] + seq!['\n'] + spec_join_lines(lines.drop_first())
    }
}

impl Formula {
    /// The header line: the letters, a separator, and the formula's tokens
    /// padded for alignment.
    pub open spec fn spec_header_line(self) -> Seq<char> {
        spec_letter_header(self.spec_letter_seq()) + seq!['|', ' '] + spec_padded_tokens(
            self.spec_sentence(),
        )
    }

    /// The data row with index `i`: the letters' truth values, a separator,
    /// and the truth value of every subformula under its token.
    pub open spec fn spec_row_line(self, i: u64) -> Seq<char> {
        let letters = self.spec_letter_seq();
        spec_letter_values(letters, i, 0) + seq!['|', ' '] + spec_tf_cells(
            self.spec_eval(spec_row_map(letters, i)).spec_sentence(),
        )
    }

    /// The lines of the truth table: one header line, then one data row per
    /// assignment, the row index running from all-false 0 to all-true
    /// 2^n - 1.
    pub open spec fn spec_table_lines(self) -> Seq<Seq<char>> {
        seq![self.spec_header_line()] + Seq::new(
            pow2(self.spec_letter_seq().len() as nat),
            |r: int| self.spec_row_line(r as u64),
        )
    }

    /// The whole truth table, each line closed by a newline.
    pub open spec fn spec_truth_table(self) -> Seq<char> {
        spec_join_lines(self.spec_table_lines())
    }

    /// Renders the truth table of the formula: the header line, then one
    /// line for each of the 2^n assignments to its n distinct letters, in
    /// the fixed bit order whose first row is all-false and whose last row
    /// is all-true. The letter count is bounded so that the row count fits
    /// the machine word.
    pub fn truth_value_table(&self) -> (r: String)
        requires
            self.spec_letters().len() < 64,
        ensures
            r@ == self.spec_truth_table(),
    {
        let letters = self.letters();
        let n = letters.len();
        proof {
            letters@.unique_seq_to_set();
            assert(n < 64);
        }
        let tokens = self.to_sentence();
        let mut out: Vec<char> = Vec::new();
        proof {
            assert(letters@.skip(0) =~= letters@);
            assert(Seq::<char>::empty() + spec_letter_header(letters@) =~= spec_letter_header(
                letters@,
            ));
        }
        let mut j: usize = 0;
        while j < n
            invariant
                j <= n,
                n == letters@.len(),
                out@ + spec_letter_header(letters@.skip(j as int)) == spec_letter_header(letters@),
            decreases n - j,
        {
            proof {
                assert(letters@.skip(j as int)[0] == letters@[j as int]);
                assert(letters@.skip(j as int).drop_first() =~= letters@.skip(j + 1));
            }
            out.push(letters[j]);
            out.push(' ');
            j += 1;
        }
        proof {
            assert(letters@.skip(n as int) =~= Seq::<char>::empty());
            assert(out@ =~= spec_letter_header(letters@));
        }
        out.push('|');
        out.push(' ');
        let ghost mid = spec_letter_header(letters@) + seq!['|', ' '];
        proof {
            assert(out@ =~= mid);
            assert(tokens@.skip(0) =~= tokens@);
            assert(out@ + spec_padded_tokens(tokens@) =~= mid + spec_padded_tokens(tokens@));
        }
        let mut k: usize = 0;
        while k < tokens.len()
            invariant
                k <= tokens@.len(),
                tokens@ == self.spec_sentence(),
                out@ + spec_padded_tokens(tokens@.skip(k as int)) == mid + spec_padded_tokens(
                    tokens@,
                ),
            decreases tokens@.len() - k,
        {
            proof {
                assert(tokens@.skip(k as int)[0] == tokens@[k as int]);
                assert(tokens@.skip(k as int).drop_first() =~= tokens@.skip(k + 1));
            }
            out.push(tokens[k].to_char());
            out.push(' ');
            k += 1;
        }
        out.push('\n');
        proof {
            assert(tokens@.skip(tokens@.len() as int) =~= Seq::<Alphabet>::empty());
            assert(out@ =~= self.spec_header_line() + seq!['\n']);
        }
        let count: u64 = 1u64 << (n as u64);
        proof {
            vstd::bits::lemma_u64_pow2_no_overflow(n as nat);
            vstd::bits::lemma_u64_shl_is_mul(1u64, n as u64);
            assert(count as nat == pow2(n as nat));
            let lines = self.spec_table_lines();
            assert(lines.len() == 1 + pow2(n as nat));
            assert(lines[0] == self.spec_header_line());
            assert(lines.drop_first() =~= lines.skip(1));
            assert(spec_join_lines(lines) == lines[0] + seq!['\n'] + spec_join_lines(lines.skip(1)));
            assert(out@ + spec_join_lines(lines.skip(1int)) =~= self.spec_truth_table());
        }
        let mut i: u64 = 0;
        while i < count
            invariant
                i <= count,
                count as nat == pow2(n as nat),
                n == letters@.len(),
                n < 64,
                letters@ == self.spec_letter_seq(),
                letters@.no_duplicates(),
                letters@.to_set() == self.spec_letters(),
                out@ + spec_join_lines(self.spec_table_lines().skip(1 + i as int))
                    == self.spec_truth_table(),
            decreases count - i,
        {
            let interp = build_row_interpretation(&letters, i);
            proof {
                assert forall|c: char| self.spec_letters().contains(c)
                    implies interp@.dom().contains(c) by {
                    assert(letters@.contains(c));
                }
                assert(self.spec_letters() <= interp@.dom());
            }
            let ev = self.evaluate(&interp);
            let ghost row_start = out@;
            let mut j2: usize = 0;
            while j2 < n
                invariant
                    j2 <= n,
                    n == letters@.len(),
                    n < 64,
                    out@ + spec_letter_values(letters@, i, j2 as int) == row_start
                        + spec_letter_values(letters@, i, 0),
                decreases n - j2,
            {
                let sh: u64 = (n - 1 - j2) as u64;
                let cell = if i & (1u64 << sh) != 0 {
                    'T'
                } else {
                    'F'
                };
                out.push(cell);
                out.push(' ');
                j2 += 1;
            }
            out.push('|');
            out.push(' ');
            let mut tf = ev.tf_cells();
            out.append(&mut tf);
            out.push('\n');
            proof {
                let lines = self.spec_table_lines();
                assert(out@ =~= row_start + self.spec_row_line(i) + seq!['\n']);
                assert((1 + i as int) < lines.len());
                assert(lines[1 + i as int] == self.spec_row_line(i));
                assert(lines.skip(1 + i as int)[0] == lines[1 + i as int]);
                assert(lines.skip(1 + i as int).drop_first() =~= lines.skip(2 + i as int));
                assert(spec_join_lines(lines.skip(1 + i as int)) == lines[1 + i as int]
                    + seq!['\n'] + spec_join_lines(lines.skip(2 + i as int)));
                assert(out@ + spec_join_lines(lines.skip(1 + (i + 1) as int))
                    =~= self.spec_truth_table());
            }
            i += 1;
        }
        proof {
            let lines = self.spec_table_lines();
            assert(1 + count as int == lines.len());
            assert(lines.skip(lines.len() as int) =~= Seq::<Seq<char>>::empty());
            assert(out@ =~= self.spec_truth_table());
        }
        chars_to_string(&out)
    }
}

/// A formula holds finitely many distinct letters.
pub proof fn lemma_letters_finite(f: Formula)
    ensures
        f.spec_letters().finite(),
    decreases f,
{
    match f {
        Formula::Letter(_) => {},
        Formula::True => {},
        Formula::False => {},
        Formula::Negation(sub) => lemma_letters_finite(*sub),
        Formula::SecondaryFunc { name: _, lhs, rhs } => {
            lemma_letters_finite(*lhs);
            lemma_letters_finite(*rhs);
        },
    }
}

/// Law: the truth table of a formula with n distinct letters holds one
/// header line and exactly 2^n data rows; the assignment of data row 0
/// makes every letter false, and the assignment of the last data row,
/// 2^n - 1, makes every letter true.
pub proof fn lemma_truth_table_shape(f: Formula)
    requires
        f.spec_letters().len() < 64,
    ensures
        f.spec_table_lines().len() == 1 + pow2(f.spec_letters().len()),
        f.spec_table_lines()[0] == f.spec_header_line(),
        forall|r: int|
            0 <= r < pow2(f.spec_letters().len()) ==> #[trigger] f.spec_table_lines()[1 + r]
                == f.spec_row_line(r as u64),
        forall|c: char|
            f.spec_letters().contains(c) ==> spec_row_map(f.spec_letter_seq(), 0)[c] == false,
        forall|c: char|
            f.spec_letters().contains(c) ==> spec_row_map(
                f.spec_letter_seq(),
                (pow2(f.spec_letters().len()) - 1) as u64,
            )[c] == true,
{
    lemma_letters_finite(f);
    lemma_collect_letters_props(f, Seq::empty());
    let letters = f.spec_letter_seq();
    assert(Seq::<char>::empty().to_set() =~= Set::<char>::empty());
    assert(letters.to_set() =~= f.spec_letters());
    assert(letters.no_duplicates());
    letters.unique_seq_to_set();
    let n = letters.len();
    assert(n == f.spec_letters().len());
    assert(forall|sh: u64| sh < 64 ==> 0u64 & (1u64 << sh) == 0) by (bit_vector);
    assert forall|c: char| f.spec_letters().contains(c) implies spec_row_map(letters, 0)[c]
        == false by {
        assert(letters.contains(c));
        let idx = letters.index_of(c);
        assert(0 <= idx < n && letters[idx] == c);
        let sh = (n - 1 - idx) as u64;
        assert(sh < 64);
        assert(!spec_bit(0, sh));
    }
    vstd::bits::lemma_u64_pow2_no_overflow(n as nat);
    vstd::bits::lemma_u64_shl_is_mul(1u64, n as u64);
    let last: u64 = (pow2(f.spec_letters().len()) - 1) as u64;
    assert(last == (1u64 << (n as u64)) - 1);
    assert(forall|sh: u64, m: u64|
        sh < m < 64 ==> (((1u64 << m) - 1) as u64) & (1u64 << sh) != 0) by (bit_vector);
    assert forall|c: char| f.spec_letters().contains(c) implies spec_row_map(letters, last)[c]
        == true by {
        assert(letters.contains(c));
        let idx = letters.index_of(c);
        assert(0 <= idx < n && letters[idx] == c);
        let sh = (n - 1 - idx) as u64;
        assert(sh < (n as u64) && n < 64);
        assert(spec_bit(last, sh));
    }
}

} // verus!
