//! The cost ledger: the mathematical model of mana costs and payment, the
//! executable payment simulation on `ManaPool`, and the token model for the
//! textual cost parser.
//!
//! A cost is a pair of a generic amount and a colored requirement (itself a
//! pool). Payment first checks and subtracts each colored requirement, then
//! drains the generic amount greedily in a fixed priority order — colorless,
//! red, green, black, blue, white. The order is a tie-break policy with no
//! rules basis, kept as a named, documented choice.

use vstd::prelude::*;

use crate::models::{Color, ManaPool, PoolView};

verus! {

/// The sum of all six counters of a pool.
pub open spec fn pool_total(p: PoolView) -> int {
    p.white + p.blue + p.black + p.red + p.green + p.colorless
}

/// Whether `p` has at least as much of every kind of mana as `c` asks.
pub open spec fn covers(p: PoolView, c: PoolView) -> bool {
    &&& p.white >= c.white
    &&& p.blue >= c.blue
    &&& p.black >= c.black
    &&& p.red >= c.red
    &&& p.green >= c.green
    &&& p.colorless >= c.colorless
}

/// The pool left after subtracting the colored requirement `c` from `p`.
pub open spec fn sub_colored(p: PoolView, c: PoolView) -> PoolView {
    PoolView {
        white: p.white - c.white,
        blue: p.blue - c.blue,
        black: p.black - c.black,
        red: p.red - c.red,
        green: p.green - c.green,
        colorless: p.colorless - c.colorless,
    }
}

/// The first colored requirement `p` cannot meet, in the fixed reporting
/// order white, blue, black, red, green, colorless; `None` when `p` covers
/// `c`.
pub open spec fn first_short(p: PoolView, c: PoolView) -> Option<Color> {
    if p.white < c.white {
        Some(Color::White)
    } else if p.blue < c.blue {
        Some(Color::Blue)
    } else if p.black < c.black {
        Some(Color::Black)
    } else if p.red < c.red {
        Some(Color::Red)
    } else if p.green < c.green {
        Some(Color::Green)
    } else if p.colorless < c.colorless {
        Some(Color::Colorless)
    } else {
        None
    }
}

/// Whether the pool `p` can pay a cost of colored requirement `colored` plus
/// `generic` generic mana: every colored counter must be covered, and what
/// remains after the colored payment must total at least `generic`.
pub open spec fn spec_can_pay(p: PoolView, colored: PoolView, generic: int) -> bool {
    covers(p, colored) && pool_total(sub_colored(p, colored)) >= generic
}

/// The pool left after draining `g` generic mana from `p` greedily, in the
/// fixed priority order colorless, red, green, black, blue, white.
pub open spec fn drain(p: PoolView, g: int) -> PoolView
    recommends
        0 <= g <= pool_total(p),
{
    let take_c = if p.colorless <= g { p.colorless } else { g };
    let g1 = g - take_c;
    let take_r = if p.red <= g1 { p.red } else { g1 };
    let g2 = g1 - take_r;
    let take_g = if p.green <= g2 { p.green } else { g2 };
    let g3 = g2 - take_g;
    let take_b = if p.black <= g3 { p.black } else { g3 };
    let g4 = g3 - take_b;
    let take_u = if p.blue <= g4 { p.blue } else { g4 };
    let g5 = g4 - take_u;
    let take_w = if p.white <= g5 { p.white } else { g5 };
    PoolView {
        white: p.white - take_w,
        blue: p.blue - take_u,
        black: p.black - take_b,
        red: p.red - take_r,
        green: p.green - take_g,
        colorless: p.colorless - take_c,
    }
}

/// The pool left after a successful payment: colored requirements subtracted
/// exactly, then the generic amount drained greedily.
pub open spec fn pay_result(p: PoolView, colored: PoolView, generic: int) -> PoolView
    recommends
        spec_can_pay(p, colored, generic),
{
    drain(sub_colored(p, colored), generic)
}

impl ManaPool {
    /// The total amount of mana floating in the pool, of all kinds.
    pub fn total_available(&self) -> (t: u64)
        ensures
            t as int == pool_total(self@),
    {
        self.white as u64 + self.blue as u64 + self.black as u64 + self.red as u64
            + self.green as u64 + self.colorless as u64
    }

    /// Pays a cost of `colored` plus `generic` out of this pool. Returns
    /// whether the whole payment succeeded; the pool is mutated only then.
    /// The entire payment is checked before anything is subtracted, so a
    /// failed payment never leaves a partial deduction behind.
    pub fn pay(&mut self, colored: &ManaPool, generic: u32) -> (ok: bool)
        ensures
            ok == spec_can_pay(old(self)@, colored@, generic as int),
            ok ==> final(self)@ == pay_result(old(self)@, colored@, generic as int),
            !ok ==> *final(self) == *old(self),
    {
        if self.white < colored.white || self.blue < colored.blue || self.black < colored.black
            || self.red < colored.red || self.green < colored.green
            || self.colorless < colored.colorless {
            return false;
        }
        let remaining: u64 = (self.white - colored.white) as u64 + (self.blue - colored.blue) as u64
            + (self.black - colored.black) as u64 + (self.red - colored.red) as u64
            + (self.green - colored.green) as u64 + (self.colorless - colored.colorless) as u64;
        if remaining < generic as u64 {
            return false;
        }
        self.white -= colored.white;
        self.blue -= colored.blue;
        self.black -= colored.black;
        self.red -= colored.red;
        self.green -= colored.green;
        self.colorless -= colored.colorless;

        let mut g = generic;
        let take = if self.colorless <= g { self.colorless } else { g };
        self.colorless -= take;
        g -= take;
        let take = if self.red <= g { self.red } else { g };
        self.red -= take;
        g -= take;
        let take = if self.green <= g { self.green } else { g };
        self.green -= take;
        g -= take;
        let take = if self.black <= g { self.black } else { g };
        self.black -= take;
        g -= take;
        let take = if self.blue <= g { self.blue } else { g };
        self.blue -= take;
        g -= take;
        let take = if self.white <= g { self.white } else { g };
        self.white -= take;
        true
    }

    /// The pure-check variant of `pay`: runs the same algorithm against a
    /// disposable copy of the pool, so assessment never mutates the real
    /// pool.
    pub fn can_pay(&self, colored: &ManaPool, generic: u32) -> (ok: bool)
        ensures
            ok == spec_can_pay(self@, colored@, generic as int),
    {
        let mut scratch = *self;
        scratch.pay(colored, generic)
    }
}

// ---------------------------------------------------------------------------
// The token model for textual mana costs.
//
// Cost text such as "{1}{U}{U}" is cut into segments at every '}', empty
// segments are dropped, and each remaining segment is read as a symbol after
// its leading '{' characters are stripped. A symbol is a single color letter
// (W, U, B, R, G, C), a bare X (an unconstrained variable cost, contributing
// zero), or a non-negative integer added to the generic amount; anything else
// is a parse error naming the symbol.
// ---------------------------------------------------------------------------

/// The index of the first `'}'` in `s`, or `s.len()` if there is none.
pub open spec fn first_close(s: Seq<char>) -> int
    decreases s.len(),
{
    if s.len() == 0 {
        0
    } else if s[0] == '}' {
        0
    } else {
        1 + first_close(s.drop_first())
    }
}

/// `first_close` always lands inside the sequence or just past its end.
pub proof fn lemma_first_close_bounds(s: Seq<char>)
    ensures
        0 <= first_close(s) <= s.len(),
    decreases s.len(),
{
    if s.len() > 0 && s[0] != '}' {
        lemma_first_close_bounds(s.drop_first());
    }
}

/// `first_close(s)` is exactly the position `j` at which a left-to-right
/// scan first sees `'}'` (or the length, if the scan sees none).
pub proof fn lemma_first_close_at(s: Seq<char>, j: int)
    requires
        0 <= j <= s.len(),
        forall|m: int| 0 <= m < j ==> s[m] != '}',
        j < s.len() ==> s[j] == '}',
    ensures
        first_close(s) == j,
    decreases j,
{
    if j == 0 {
        if s.len() > 0 {
            assert(s[0] == '}');
        }
    } else {
        assert(s[0] != '}');
        let t = s.drop_first();
        assert forall|m: int| 0 <= m < j - 1 implies t[m] != '}' by {
            assert(t[m] == s[m + 1]);
        }
        if j - 1 < t.len() {
            assert(t[j - 1] == s[j]);
        }
        lemma_first_close_at(t, j - 1);
    }
}

/// The segment with its leading `'{'` characters removed.
pub open spec fn strip_braces(t: Seq<char>) -> Seq<char>
    decreases t.len(),
{
    if t.len() > 0 && t[0] == '{' {
        strip_braces(t.drop_first())
    } else {
        t
    }
}

/// `strip_braces(t)` is the suffix of `t` from the first non-`'{'`
/// character on.
pub proof fn lemma_strip_braces_at(t: Seq<char>, k: int)
    requires
        0 <= k <= t.len(),
        forall|m: int| 0 <= m < k ==> t[m] == '{',
        k < t.len() ==> t[k] != '{',
    ensures
        strip_braces(t) == t.subrange(k, t.len() as int),
    decreases k,
{
    if k == 0 {
        assert(strip_braces(t) =~= t.subrange(0, t.len() as int));
    } else {
        assert(t[0] == '{');
        let u = t.drop_first();
        assert forall|m: int| 0 <= m < k - 1 implies u[m] == '{' by {
            assert(u[m] == t[m + 1]);
        }
        if k - 1 < u.len() {
            assert(u[k - 1] == t[k]);
        }
        lemma_strip_braces_at(u, k - 1);
        assert(u.subrange(k - 1, u.len() as int) =~= t.subrange(k, t.len() as int));
    }
}

/// Whether `c` is a decimal digit.
pub open spec fn is_digit(c: char) -> bool {
    48 <= c as int && c as int <= 57
}

/// The numeric value of the digit `c`.
pub open spec fn digit_val(c: char) -> int
    recommends
        is_digit(c),
{
    c as int - 48
}

/// Whether every character of `t` is a decimal digit.
pub open spec fn digits_only(t: Seq<char>) -> bool {
    forall|i: int| 0 <= i < t.len() ==> is_digit(#[trigger] t[i])
}

/// The value of `t` read as a decimal numeral.
pub open spec fn num_val(t: Seq<char>) -> int
    recommends
        digits_only(t),
    decreases t.len(),
{
    if t.len() == 0 {
        0
    } else {
        10 * num_val(t.drop_last()) + digit_val(t.last())
    }
}

/// Appending a digit multiplies the numeral's value by ten and adds the
/// digit.
pub proof fn lemma_num_val_push(t: Seq<char>, c: char)
    ensures
        num_val(t.push(c)) == 10 * num_val(t) + digit_val(c),
{
    assert(t.push(c).drop_last() =~= t);
}

/// A numeral of digits is non-negative.
pub proof fn lemma_num_val_nonneg(t: Seq<char>)
    requires
        digits_only(t),
    ensures
        num_val(t) >= 0,
    decreases t.len(),
{
    if t.len() > 0 {
        assert(digits_only(t.drop_last()));
        lemma_num_val_nonneg(t.drop_last());
    }
}

/// One symbol of a mana cost, as the parser's model classifies it.
pub enum CostSymbol {
    /// A single color letter: one unit of that color.
    Colored(Color),
    /// A bare `X`: an unconstrained variable cost, contributing zero.
    Variable,
    /// A non-negative integer no larger than `u32::MAX`, added to the
    /// generic amount.
    Generic(int),
    /// Anything else: a parse error naming the symbol.
    Bad,
}

/// The digits of a numeric token: an optional single leading `'+'` sign is
/// accepted, as Rust's integer parsing accepts it.
pub open spec fn digits_part(t: Seq<char>) -> Seq<char> {
    if t.len() >= 1 && t[0] == '+' {
        t.drop_first()
    } else {
        t
    }
}

/// Classifies one stripped token of a mana cost. A numeral whose value does
/// not fit in `u32` is unrecognized, exactly as an integer parse of the
/// token would fail.
pub open spec fn classify(t: Seq<char>) -> CostSymbol {
    if t.len() == 1 && t[0] == 'W' {
        CostSymbol::Colored(Color::White)
    } else if t.len() == 1 && t[0] == 'U' {
        CostSymbol::Colored(Color::Blue)
    } else if t.len() == 1 && t[0] == 'B' {
        CostSymbol::Colored(Color::Black)
    } else if t.len() == 1 && t[0] == 'R' {
        CostSymbol::Colored(Color::Red)
    } else if t.len() == 1 && t[0] == 'G' {
        CostSymbol::Colored(Color::Green)
    } else if t.len() == 1 && t[0] == 'C' {
        CostSymbol::Colored(Color::Colorless)
    } else if t.len() == 1 && t[0] == 'X' {
        CostSymbol::Variable
    } else {
        let d = digits_part(t);
        if d.len() > 0 && digits_only(d) && num_val(d) <= u32::MAX {
            CostSymbol::Generic(num_val(d))
        } else {
            CostSymbol::Bad
        }
    }
}

/// The pool `p` with one unit of color `c` added.
pub open spec fn add_color(p: PoolView, c: Color) -> PoolView {
    match c {
        Color::White => PoolView { white: p.white + 1, ..p },
        Color::Blue => PoolView { blue: p.blue + 1, ..p },
        Color::Black => PoolView { black: p.black + 1, ..p },
        Color::Red => PoolView { red: p.red + 1, ..p },
        Color::Green => PoolView { green: p.green + 1, ..p },
        Color::Colorless => PoolView { colorless: p.colorless + 1, ..p },
    }
}

/// The result of reading a whole cost text: either the accumulated generic
/// amount and colored requirement, or the first unrecognized symbol, left to
/// right.
#[verifier::ext_equal]
pub enum CostView {
    Parsed { generic: int, colored: PoolView },
    Unrecognized { symbol: Seq<char> },
}

/// The model of cost parsing: cut at each `'}'`, drop empty segments, strip
/// leading `'{'`s, classify, and accumulate; the leftmost unrecognized
/// symbol wins.
pub open spec fn spec_parse(s: Seq<char>) -> CostView
    decreases s.len(),
    via spec_parse_decreases
{
    if s.len() == 0 {
        CostView::Parsed { generic: 0, colored: PoolView::empty() }
    } else {
        let k = first_close(s);
        let seg = s.subrange(0, k);
        let rest = if k == s.len() {
            Seq::<char>::empty()
        } else {
            s.subrange(k + 1, s.len() as int)
        };
        let tail = spec_parse(rest);
        if seg.len() == 0 {
            tail
        } else {
            let tok = strip_braces(seg);
            match classify(tok) {
                CostSymbol::Bad => CostView::Unrecognized { symbol: tok },
                CostSymbol::Variable => tail,
                CostSymbol::Colored(c) => match tail {
                    CostView::Unrecognized { .. } => tail,
                    CostView::Parsed { generic, colored } => CostView::Parsed {
                        generic,
                        colored: add_color(colored, c),
                    },
                },
                CostSymbol::Generic(n) => match tail {
                    CostView::Unrecognized { .. } => tail,
                    CostView::Parsed { generic, colored } => CostView::Parsed {
                        generic: generic + n,
                        colored,
                    },
                },
            }
        }
    }
}

#[via_fn]
proof fn spec_parse_decreases(s: Seq<char>) {
    lemma_first_close_bounds(s);
}

/// Whether a parsed cost fits the counters of an executable `ManaPool`.
pub open spec fn cost_fits(generic: int, colored: PoolView) -> bool {
    &&& generic <= u32::MAX
    &&& colored.white <= u32::MAX
    &&& colored.blue <= u32::MAX
    &&& colored.black <= u32::MAX
    &&& colored.red <= u32::MAX
    &&& colored.green <= u32::MAX
    &&& colored.colorless <= u32::MAX
}

/// The parse error for a cost whose accumulated amounts exceed what a pool
/// counter can hold.
pub open spec fn cost_too_large_msg() -> Seq<char> {
    "Mana cost is too large."@
}

/// The pool with both amounts of each kind of mana together.
pub open spec fn pool_add(a: PoolView, b: PoolView) -> PoolView {
    PoolView {
        white: a.white + b.white,
        blue: a.blue + b.blue,
        black: a.black + b.black,
        red: a.red + b.red,
        green: a.green + b.green,
        colorless: a.colorless + b.colorless,
    }
}

/// Folds an amount already accumulated from a prefix of the cost text into
/// the model of the remaining text.
pub open spec fn merge_cost(generic: int, colored: PoolView, tail: CostView) -> CostView {
    match tail {
        CostView::Unrecognized { .. } => tail,
        CostView::Parsed { generic: g, colored: p } => CostView::Parsed {
            generic: generic + g,
            colored: pool_add(colored, p),
        },
    }
}

/// The suffix of `s` from `pos` on.
pub open spec fn tail_at(s: Seq<char>, pos: int) -> Seq<char> {
    s.subrange(pos, s.len() as int)
}

/// `x` held below the first value that no longer fits a pool counter. An
/// accumulator kept at `cap32` of the true count stays exact as long as the
/// true count fits in `u32`, and sticks at `0x1_0000_0000` as soon as it
/// does not, which is all the parser needs to report an overlarge cost.
pub open spec fn cap32(x: int) -> int {
    if x <= 0x1_0000_0000 {
        x
    } else {
        0x1_0000_0000
    }
}

/// Adds `v` to an accumulator kept at `cap32` of a true count `x`, keeping
/// it at `cap32` of the new true count.
pub(crate) fn add_capped(acc: u64, v: u32, Ghost(x): Ghost<int>) -> (r: u64)
    requires
        x >= 0,
        acc as int == cap32(x),
    ensures
        r as int == cap32(x + v),
{
    let sum = acc + v as u64;
    if sum > 0x1_0000_0000 {
        0x1_0000_0000
    } else {
        sum
    }
}

/// The index of the first `'}'` in `s` at or after `from`, or the length if
/// there is none.
pub(crate) fn find_close(s: &str, from: usize) -> (k: usize)
    requires
        from <= s@.len(),
    ensures
        from <= k <= s@.len(),
        forall|m: int| from <= m < k ==> s@[m] != '}',
        k < s@.len() ==> s@[k as int] == '}',
{
    let n = s.unicode_len();
    let mut k = from;
    while k < n
        invariant
            from <= k <= n,
            n == s@.len(),
            forall|m: int| from <= m < k ==> s@[m] != '}',
        decreases n - k,
    {
        if s.get_char(k) == '}' {
            return k;
        }
        k += 1;
    }
    k
}

/// The index of the first character in `s[from..to]` that is not `'{'`, or
/// `to` if they all are.
pub(crate) fn find_non_brace(s: &str, from: usize, to: usize) -> (j: usize)
    requires
        from <= to <= s@.len(),
    ensures
        from <= j <= to,
        forall|m: int| from <= m < j ==> s@[m] == '{',
        j < to ==> s@[j as int] != '{',
    decreases to - from,
{
    let mut j = from;
    while j < to
        invariant
            from <= j <= to,
            to <= s@.len(),
            forall|m: int| from <= m < j ==> s@[m] == '{',
        decreases to - j,
    {
        if s.get_char(j) != '{' {
            return j;
        }
        j += 1;
    }
    j
}

/// One classified token of a mana cost, as executable data.
#[derive(Debug, PartialEq, Eq, Structural, Clone, Copy)]
pub(crate) enum TokenKind {
    Colored(Color),
    Variable,
    Generic(u32),
    Bad,
}

/// Reads the token `s[from..to]` — a segment already stripped of its leading
/// braces — as the cost symbol the model assigns it.
pub(crate) fn classify_token(s: &str, from: usize, to: usize) -> (k: TokenKind)
    requires
        from <= to <= s@.len(),
    ensures
        ({
            let t = s@.subrange(from as int, to as int);
            match classify(t) {
                CostSymbol::Colored(c) => k == TokenKind::Colored(c),
                CostSymbol::Variable => k == TokenKind::Variable,
                CostSymbol::Generic(n) => k matches TokenKind::Generic(v) && v as int == n,
                CostSymbol::Bad => k == TokenKind::Bad,
            }
        }),
{
    let ghost t = s@.subrange(from as int, to as int);
    if to - from == 1 {
        let c = s.get_char(from);
        assert(t.len() == 1 && t[0] == c);
        if c == 'W' {
            return TokenKind::Colored(Color::White);
        }
        if c == 'U' {
            return TokenKind::Colored(Color::Blue);
        }
        if c == 'B' {
            return TokenKind::Colored(Color::Black);
        }
        if c == 'R' {
            return TokenKind::Colored(Color::Red);
        }
        if c == 'G' {
            return TokenKind::Colored(Color::Green);
        }
        if c == 'C' {
            return TokenKind::Colored(Color::Colorless);
        }
        if c == 'X' {
            return TokenKind::Variable;
        }
    }
    // Numeric token: an optional single leading '+', then decimal digits.
    let dstart = if to > from && s.get_char(from) == '+' {
        from + 1
    } else {
        from
    };
    proof {
        assert(s@.subrange(dstart as int, to as int) =~= digits_part(t));
    }
    let ghost d = digits_part(t);
    if dstart == to {
        return TokenKind::Bad;
    }
    let mut i = dstart;
    let mut val: u64 = 0;
    let mut big = false;
    #[verifier::loop_isolation(false)]
    while i < to
        invariant
            dstart <= i <= to <= s@.len(),
            d == digits_part(s@.subrange(from as int, to as int)),
            d =~= s@.subrange(dstart as int, to as int),
            digits_only(s@.subrange(dstart as int, i as int)),
            !big ==> val as int == num_val(s@.subrange(dstart as int, i as int)) && val
                <= u32::MAX,
            big ==> num_val(s@.subrange(dstart as int, i as int)) > u32::MAX,
        decreases to - i,
    {
        let c = s.get_char(i);
        let cv = c as u32;
        if cv < 48 || cv > 57 {
            proof {
                assert(d[i - dstart] == c);
                assert(!is_digit(d[i - dstart]));
                assert(!digits_only(d));
            }
            return TokenKind::Bad;
        }
        proof {
            let pre = s@.subrange(dstart as int, i as int);
            lemma_num_val_push(pre, c);
            assert(s@.subrange(dstart as int, i as int + 1) =~= pre.push(c));
            if !big {
                lemma_num_val_nonneg(pre);
            }
        }
        let dv = (cv - 48) as u64;
        if big {
            proof {
                let pre = s@.subrange(dstart as int, i as int);
                assert(num_val(pre.push(c)) == 10 * num_val(pre) + digit_val(c));
                assert(num_val(pre) > u32::MAX);
            }
        } else {
            let nv = val * 10 + dv;
            if nv > 0xffff_ffff {
                big = true;
            } else {
                val = nv;
            }
        }
        i += 1;
    }
    proof {
        assert(s@.subrange(dstart as int, to as int) =~= d);
    }
    if big {
        return TokenKind::Bad;
    }
    proof {
        assert(d.len() > 0 && digits_only(d) && num_val(d) <= u32::MAX);
        assert(classify(t) == CostSymbol::Generic(num_val(d)));
    }
    TokenKind::Generic(val as u32)
}

} // verus!
