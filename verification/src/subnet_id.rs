//! Subnet identifiers: paths in the tree of subnets.
//!
//! A subnet is named by the actor ids of the subnet actors on the way from the
//! root network down to it. The root is the empty path. In text a path reads
//! `/root`, followed by `/f0<id>` for each step down.

use vstd::prelude::*;

verus! {

/// `String::push` appends one character.
pub assume_specification[ String::push ](s: &mut String, ch: char)
    ensures
        final(s)@ == old(s)@.push(ch),
;

/// The path of a subnet from the root network.
#[derive(Debug)]
pub struct SubnetID {
    /// Actor ids of the subnet actors from the root down, the root's own
    /// children first.
    pub children: Vec<u64>,
}

/// Why a text is not a subnet path.
#[derive(Debug, Clone, Copy, PartialEq, Eq, Structural)]
pub enum PathError {
    /// The text does not start with the root's name.
    MissingRoot,
    /// A step is not `/f0` followed by digits.
    InvalidStep,
    /// The digits of a step are more than 20, or exceed 64 bits.
    IdOutOfRange,
}

impl View for SubnetID {
    type V = Seq<u64>;

    open spec fn view(&self) -> Seq<u64> {
        self.children@
    }
}

/// How far two paths agree from position `i` on, given that they agree
/// before it: the first position at which they differ or one of them ends.
pub open spec fn common_prefix_from(a: Seq<u64>, b: Seq<u64>, i: int) -> int
    decreases a.len() - i,
{
    if 0 <= i < a.len() && i < b.len() && a[i] == b[i] {
        common_prefix_from(a, b, i + 1)
    } else {
        i
    }
}

/// The length of the longest common prefix of two paths.
pub open spec fn common_prefix_len(a: Seq<u64>, b: Seq<u64>) -> int {
    common_prefix_from(a, b, 0)
}

/// The deepest subnet that is an ancestor of both, or one of them itself.
pub open spec fn common_parent_of(a: Seq<u64>, b: Seq<u64>) -> Seq<u64> {
    a.take(common_prefix_len(a, b))
}

/// Whether `a` is `b` or an ancestor of `b`.
pub open spec fn is_prefix(a: Seq<u64>, b: Seq<u64>) -> bool {
    a.len() <= b.len() && b.take(a.len() as int) == a
}

/// The common prefix is a prefix of both paths and cannot be extended.
pub proof fn law_common_prefix_is_shared(a: Seq<u64>, b: Seq<u64>, i: int)
    requires
        0 <= i <= a.len(),
        i <= b.len(),
        a.take(i) == b.take(i),
    ensures
        i <= common_prefix_from(a, b, i) <= a.len(),
        common_prefix_from(a, b, i) <= b.len(),
        a.take(common_prefix_from(a, b, i)) == b.take(common_prefix_from(a, b, i)),
        common_prefix_from(a, b, i) < a.len() && common_prefix_from(a, b, i) < b.len() ==> a[common_prefix_from(
            a,
            b,
            i,
        )] != b[common_prefix_from(a, b, i)],
    decreases a.len() - i,
{
    if i < a.len() && i < b.len() && a[i] == b[i] {
        assert(a.take(i + 1) =~= a.take(i).push(a[i]));
        assert(b.take(i + 1) =~= b.take(i).push(b[i]));
        law_common_prefix_is_shared(a, b, i + 1);
    }
}

/// Any length up to which two paths agree is at most their common prefix.
pub proof fn law_common_prefix_is_longest(a: Seq<u64>, b: Seq<u64>, d: int)
    requires
        0 <= d <= a.len(),
        d <= b.len(),
        a.take(d) == b.take(d),
    ensures
        d <= common_prefix_len(a, b),
{
    assert(a.take(0) =~= b.take(0));
    law_common_prefix_is_shared(a, b, 0);
    let c = common_prefix_len(a, b);
    if c < d {
        assert(a.take(d)[c] == a[c]);
        assert(b.take(d)[c] == b[c]);
    }
}

/// The character of a decimal digit.
pub open spec fn digit_char(d: int) -> char {
    (d + 48) as char
}

/// Whether a character is a decimal digit.
pub open spec fn is_digit(c: char) -> bool {
    48 <= c as int <= 57
}

/// The decimal digits of a number, most significant first, with no leading
/// zero but for zero itself.
pub open spec fn decimal(v: nat) -> Seq<char>
    decreases v,
{
    if v < 10 {
        seq![digit_char(v as int)]
    } else {
        decimal(v / 10).push(digit_char((v % 10) as int))
    }
}

/// The text of a path.
pub open spec fn path_text(p: Seq<u64>) -> Seq<char>
    decreases p.len(),
{
    if p.len() == 0 {
        seq!['/', 'r', 'o', 'o', 't']
    } else {
        path_text(p.drop_last()) + seq!['/', 'f', '0'] + decimal(p.last() as nat)
    }
}

/// Reads the digits of a step from position `i` on, after `nd` digits worth
/// `val`: the step's id and the position behind it, or the reason to refuse.
pub open spec fn parse_digits(s: Seq<char>, i: int, val: int, nd: int) -> Result<(int, int), PathError>
    decreases s.len() - i,
{
    if 0 <= i < s.len() && is_digit(s[i]) {
        let v = val * 10 + (s[i] as int - 48);
        if nd >= 20 || v > u64::MAX {
            Err(PathError::IdOutOfRange)
        } else {
            parse_digits(s, i + 1, v, nd + 1)
        }
    } else if nd == 0 {
        Err(PathError::InvalidStep)
    } else {
        Ok((val, i))
    }
}

/// Reads the steps of a path from position `i` on, after the steps `acc`.
pub open spec fn parse_steps(s: Seq<char>, i: int, acc: Seq<u64>) -> Result<Seq<u64>, PathError>
    decreases s.len() - i,
{
    if i >= s.len() || i < 0 {
        Ok(acc)
    } else if i + 3 <= s.len() && s[i] == '/' && s[i + 1] == 'f' && s[i + 2] == '0' {
        let step = parse_digits(s, i + 3, 0, 0);
        if step is Err {
            Err(step->Err_0)
        } else if i < step->Ok_0.1 <= s.len() {
            parse_steps(s, step->Ok_0.1, acc.push(#[verifier::truncate] (step->Ok_0.0 as u64)))
        } else {
            Err(PathError::InvalidStep)
        }
    } else {
        Err(PathError::InvalidStep)
    }
}

/// What a text means as a path: it starts with `/root`, and each step is
/// `/f0` and one to twenty decimal digits that fit in 64 bits.
pub open spec fn parse_path(s: Seq<char>) -> Result<Seq<u64>, PathError> {
    if s.len() >= 5 && s[0] == '/' && s[1] == 'r' && s[2] == 'o' && s[3] == 'o' && s[4] == 't' {
        parse_steps(s, 5, Seq::<u64>::empty())
    } else {
        Err(PathError::MissingRoot)
    }
}

/// 10 to the power `k`.
pub open spec fn pow10(k: nat) -> int
    decreases k,
{
    if k == 0 {
        1
    } else {
        10 * pow10((k - 1) as nat)
    }
}

/// The steps of a path in text, the first step first.
pub open spec fn steps_text(p: Seq<u64>) -> Seq<char>
    decreases p.len(),
{
    if p.len() == 0 {
        Seq::<char>::empty()
    } else {
        seq!['/', 'f', '0'] + decimal(p[0] as nat) + steps_text(p.skip(1))
    }
}

/// A number is below the power of ten of the number of its digits, and, but
/// for a single digit, not below the power before it.
proof fn lemma_decimal_len(v: nat)
    ensures
        decimal(v).len() >= 1,
        v < pow10(decimal(v).len()),
        decimal(v).len() > 1 ==> pow10((decimal(v).len() - 1) as nat) <= v,
    decreases v,
{
    reveal_with_fuel(pow10, 2);
    if v >= 10 {
        lemma_decimal_len(v / 10);
        let k = decimal(v / 10).len();
        assert(decimal(v).len() == k + 1);
        assert(pow10((k + 1) as nat) == 10 * pow10(k));
        if k > 1 {
            assert(pow10(k) == 10 * pow10((k - 1) as nat));
        }
    }
}

/// The powers of ten grow.
proof fn lemma_pow10_grows(a: nat, b: nat)
    requires
        a <= b,
    ensures
        0 < pow10(a) <= pow10(b),
    decreases b,
{
    if a < b {
        lemma_pow10_grows(a, (b - 1) as nat);
    } else if a > 0 {
        lemma_pow10_grows((a - 1) as nat, (a - 1) as nat);
    }
}

/// A number of 64 bits has at most 20 digits.
proof fn lemma_decimal_fits(v: u64)
    ensures
        1 <= decimal(v as nat).len() <= 20,
{
    lemma_decimal_len(v as nat);
    let k = decimal(v as nat).len();
    if k > 20 {
        lemma_pow10_grows(20, (k - 1) as nat);
        assert(pow10(20) == 100_000_000_000_000_000_000int) by {
            reveal_with_fuel(pow10, 21);
        }
    }
}

/// The digits of a number are read as the number: where they stand behind
/// `nd` digits worth `val`, reading goes on behind them with the digits that
/// were read and the worth of all of them.
proof fn lemma_digits_read(s: Seq<char>, i: int, v: nat, val: int, nd: int)
    requires
        0 <= i,
        i + decimal(v).len() <= s.len(),
        s.subrange(i, i + decimal(v).len()) == decimal(v),
        0 <= val,
        0 <= nd,
        nd + decimal(v).len() <= 20,
        val * pow10(decimal(v).len()) + v <= u64::MAX,
    ensures
        parse_digits(s, i, val, nd) == parse_digits(
            s,
            i + decimal(v).len(),
            val * pow10(decimal(v).len()) + v,
            nd + decimal(v).len(),
        ),
    decreases v,
{
    let len = decimal(v).len() as int;
    let text = s.subrange(i, i + len);
    reveal_with_fuel(pow10, 2);
    if v < 10 {
        assert(s[i] == text[0]);
        assert(s[i] as int - 48 == v);
        assert(val * pow10(1) + v == val * 10 + v);
    } else {
        let head = decimal(v / 10);
        let k = head.len() as int;
        assert(len == k + 1);
        assert(s.subrange(i, i + k) =~= text.subrange(0, k));
        assert(text.subrange(0, k) =~= head);
        lemma_pow10_grows(0, k as nat);
        assert(pow10((k + 1) as nat) == 10 * pow10(k as nat));
        assert(val * pow10(k as nat) + v / 10 <= u64::MAX) by (nonlinear_arith)
            requires
                val * (10 * pow10(k as nat)) + v <= u64::MAX,
                0 <= val,
                0 < pow10(k as nat),
                v >= 10,
        ;
        lemma_digits_read(s, i, v / 10, val, nd);
        let mid = val * pow10(k as nat) + v / 10;
        assert(s[i + k] == text[k]);
        assert(s[i + k] as int - 48 == v % 10);
        assert(mid * 10 + v % 10 == val * pow10((k + 1) as nat) + v) by (nonlinear_arith)
            requires
                mid == val * pow10(k as nat) + v / 10,
                pow10((k + 1) as nat) == 10 * pow10(k as nat),
                v == 10 * (v / 10) + v % 10,
        ;
    }
}

/// The text of a path is the root's name and its steps, the first step
/// first.
proof fn lemma_path_text_steps(p: Seq<u64>)
    ensures
        path_text(p) == seq!['/', 'r', 'o', 'o', 't'] + steps_text(p),
    decreases p.len(),
{
    let root = seq!['/', 'r', 'o', 'o', 't'];
    if p.len() == 0 {
        assert(root + steps_text(p) =~= root);
    } else {
        lemma_path_text_steps(p.drop_last());
        lemma_steps_text_last(p);
        assert(path_text(p) =~= root + steps_text(p));
    }
}

/// The steps of a path in text are those of the path without its last step,
/// and the last step.
proof fn lemma_steps_text_last(p: Seq<u64>)
    requires
        p.len() > 0,
    ensures
        steps_text(p) == steps_text(p.drop_last()) + seq!['/', 'f', '0'] + decimal(p.last() as nat),
    decreases p.len(),
{
    if p.len() == 1 {
        assert(p.drop_last() =~= Seq::<u64>::empty());
        assert(p.skip(1) =~= Seq::<u64>::empty());
        assert(steps_text(p) =~= steps_text(p.drop_last()) + seq!['/', 'f', '0'] + decimal(
            p.last() as nat,
        ));
    } else {
        lemma_steps_text_last(p.skip(1));
        assert(p.skip(1).drop_last() =~= p.drop_last().skip(1));
        assert(p.skip(1).last() == p.last());
        assert(p.drop_last()[0] == p[0]);
        assert(steps_text(p) =~= steps_text(p.drop_last()) + seq!['/', 'f', '0'] + decimal(
            p.last() as nat,
        ));
    }
}

/// The steps of a path are read from their text.
proof fn lemma_steps_read(pre: Seq<char>, p: Seq<u64>, acc: Seq<u64>)
    ensures
        parse_steps(pre + steps_text(p), pre.len() as int, acc) == Ok::<Seq<u64>, PathError>(
            acc + p,
        ),
    decreases p.len(),
{
    let s = pre + steps_text(p);
    let i = pre.len() as int;
    if p.len() == 0 {
        assert(s =~= pre);
        assert(acc + p =~= acc);
    } else {
        let digits = decimal(p[0] as nat);
        let rest = steps_text(p.skip(1));
        let step = seq!['/', 'f', '0'];
        lemma_decimal_fits(p[0]);
        assert(s =~= pre + step + digits + rest);
        assert(s[i] == '/' && s[i + 1] == 'f' && s[i + 2] == '0');
        let start = i + 3;
        let end = start + digits.len();
        assert(s.subrange(start, end) =~= digits);
        assert(pow10(0) == 1);
        lemma_pow10_grows(0, digits.len());
        assert(0 * pow10(digits.len()) + p[0] == p[0]) by (nonlinear_arith);
        lemma_digits_read(s, start, p[0] as nat, 0, 0);
        // behind the digits the text ends, or the next step begins
        if p.len() > 1 {
            assert(rest[0] == '/');
            assert(s[end] == rest[0]);
        }
        assert(parse_digits(s, start, 0, 0) == Ok::<(int, int), PathError>((p[0] as int, end)));
        assert(s =~= (pre + step + digits) + rest);
        lemma_steps_read(pre + step + digits, p.skip(1), acc.push(p[0]));
        assert(acc.push(p[0]) + p.skip(1) =~= acc + p);
    }
}

/// A path that is written is read back as it was.
pub proof fn law_path_round_trip(p: Seq<u64>)
    ensures
        parse_path(path_text(p)) == Ok::<Seq<u64>, PathError>(p),
{
    let root = seq!['/', 'r', 'o', 'o', 't'];
    lemma_path_text_steps(p);
    lemma_steps_read(root, p, Seq::<u64>::empty());
    assert(Seq::<u64>::empty() + p =~= p);
    let s = path_text(p);
    assert(s[0] == '/' && s[1] == 'r' && s[2] == 'o' && s[3] == 'o' && s[4] == 't');
}

/// A copy of a list of ids.
pub fn ids_clone(a: &Vec<u64>) -> (r: Vec<u64>)
    ensures
        r@ == a@,
{
    let mut out: Vec<u64> = Vec::new();
    let mut i: usize = 0;
    while i < a.len()
        invariant
            0 <= i <= a.len(),
            out@ == a@.take(i as int),
        decreases a.len() - i,
    {
        out.push(a[i]);
        assert(a@.take(i as int).push(a@[i as int]) =~= a@.take(i as int + 1));
        i += 1;
    }
    assert(a@.take(a.len() as int) =~= a@);
    out
}

fn push_decimal(out: &mut String, v: u64)
    ensures
        final(out)@ == old(out)@ + decimal(v as nat),
    decreases v,
{
    let ghost before = out@;
    if v >= 10 {
        push_decimal(out, v / 10);
    }
    let d: u8 = (v % 10) as u8;
    out.push((d + 48) as char);
    assert(out@ =~= before + decimal(v as nat));
}

/// Reads the digits of a step that start at `start`.
fn scan_digits(s: &str, n: usize, start: usize) -> (r: Result<(u64, usize), PathError>)
    requires
        n == s@.len(),
        start <= n,
    ensures
        match r {
            Ok((v, j)) => parse_digits(s@, start as int, 0, 0) == Ok::<(int, int), PathError>(
                (v as int, j as int),
            ) && start < j <= n,
            Err(e) => parse_digits(s@, start as int, 0, 0) == Err::<(int, int), PathError>(e),
        },
{
    let mut j: usize = start;
    let mut val: u64 = 0;
    let mut nd: usize = 0;
    loop
        invariant
            n == s@.len(),
            start <= j <= n,
            0 <= nd <= 20,
            j == start + nd,
            parse_digits(s@, start as int, 0, 0) == parse_digits(
                s@,
                j as int,
                val as int,
                nd as int,
            ),
        decreases n - j,
    {
        if j >= n {
            if nd == 0 {
                return Err(PathError::InvalidStep);
            }
            return Ok((val, j));
        }
        let c = s.get_char(j);
        let code: u32 = c as u32;
        if !(48 <= code && code <= 57) {
            if nd == 0 {
                return Err(PathError::InvalidStep);
            }
            return Ok((val, j));
        }
        let d: u64 = (code - 48) as u64;
        if nd >= 20 || val > (u64::MAX - d) / 10 {
            return Err(PathError::IdOutOfRange);
        }
        val = val * 10 + d;
        nd += 1;
        j += 1;
    }
}

impl SubnetID {
    /// The root network.
    pub fn root() -> (r: SubnetID)
        ensures
            r@ == Seq::<u64>::empty(),
    {
        SubnetID { children: Vec::new() }
    }

    /// The subnet whose subnet actor has id `actor` in `parent`.
    pub fn new_child(parent: &SubnetID, actor: u64) -> (r: SubnetID)
        ensures
            r@ == parent@.push(actor),
    {
        let mut children = ids_clone(&parent.children);
        children.push(actor);
        SubnetID { children }
    }

    /// Whether this is the root network.
    pub fn is_root(&self) -> (r: bool)
        ensures
            r == (self@.len() == 0),
    {
        self.children.len() == 0
    }

    /// The number of steps from the root: 0 for the root itself.
    pub fn depth(&self) -> (r: usize)
        ensures
            r == self@.len(),
    {
        self.children.len()
    }

    /// The first `n` steps of this path.
    pub fn ancestor(&self, n: usize) -> (r: SubnetID)
        requires
            n <= self@.len(),
        ensures
            r@ == self@.take(n as int),
    {
        let mut children: Vec<u64> = Vec::new();
        let mut i: usize = 0;
        while i < n
            invariant
                0 <= i <= n <= self.children.len(),
                children@ == self.children@.take(i as int),
            decreases n - i,
        {
            children.push(self.children[i]);
            assert(self.children@.take(i as int).push(self.children@[i as int])
                =~= self.children@.take(i as int + 1));
            i += 1;
        }
        SubnetID { children }
    }

    /// The subnet one step up, or `None` for the root.
    pub fn parent(&self) -> (r: Option<SubnetID>)
        ensures
            self@.len() == 0 ==> r is None,
            self@.len() > 0 ==> r is Some && r->Some_0@ == self@.drop_last(),
    {
        let n = self.children.len();
        if n == 0 {
            None
        } else {
            let p = self.ancestor(n - 1);
            assert(self@.take(n - 1) =~= self@.drop_last());
            Some(p)
        }
    }

    /// The actor id of this subnet's subnet actor in its parent; 0 for the
    /// root, which has none.
    pub fn subnet_actor_id(&self) -> (r: u64)
        ensures
            r == if self@.len() == 0 {
                0
            } else {
                self@.last()
            },
    {
        let n = self.children.len();
        if n == 0 {
            0
        } else {
            self.children[n - 1]
        }
    }

    /// The deepest subnet that both paths go through, with its depth. Every two
    /// subnets share at least the root, so the result is never `None`.
    pub fn common_parent(&self, other: &SubnetID) -> (r: Option<(usize, SubnetID)>)
        ensures
            r is Some,
            r->Some_0.0 == common_prefix_len(self@, other@),
            r->Some_0.1@ == common_parent_of(self@, other@),
    {
        let mut i: usize = 0;
        while i < self.children.len() && i < other.children.len() && self.children[i]
            == other.children[i]
            invariant
                0 <= i <= self.children.len(),
                i <= other.children.len(),
                common_prefix_len(self@, other@) == common_prefix_from(self@, other@, i as int),
            decreases self.children.len() - i,
        {
            i += 1;
        }
        Some((i, self.ancestor(i)))
    }

    /// Whether this subnet is `other` or an ancestor of it.
    pub fn is_ancestor_or_same(&self, other: &SubnetID) -> (r: bool)
        ensures
            r == is_prefix(self@, other@),
    {
        if self.children.len() > other.children.len() {
            return false;
        }
        let mut i: usize = 0;
        while i < self.children.len()
            invariant
                0 <= i <= self.children.len() <= other.children.len(),
                forall|j: int| 0 <= j < i ==> self@[j] == other@[j],
            decreases self.children.len() - i,
        {
            if self.children[i] != other.children[i] {
                assert(other@.take(self@.len() as int)[i as int] != self@[i as int]);
                return false;
            }
            i += 1;
        }
        assert(other@.take(self@.len() as int) =~= self@);
        true
    }

    /// The next subnet on the way from `from` down to this one: `None` unless
    /// `from` is a proper ancestor of this subnet.
    pub fn down(&self, from: &SubnetID) -> (r: Option<SubnetID>)
        ensures
            r is Some <==> (is_prefix(from@, self@) && from@.len() < self@.len()),
            r is Some ==> r->Some_0@ == self@.take(from@.len() as int + 1),
    {
        if from.children.len() < self.children.len() && from.is_ancestor_or_same(self) {
            Some(self.ancestor(from.children.len() + 1))
        } else {
            None
        }
    }

    /// Whether this path comes before `other` in the order of the canonical
    /// lists.
    pub fn precedes(&self, other: &SubnetID) -> (r: bool)
        ensures
            r == path_precedes(self@, other@),
    {
        let mut i: usize = 0;
        assert(self@.skip(0) =~= self@ && other@.skip(0) =~= other@);
        while i < self.children.len() && i < other.children.len() && self.children[i]
            == other.children[i]
            invariant
                0 <= i <= self.children.len(),
                i <= other.children.len(),
                path_precedes(self@, other@) == path_precedes(
                    self@.skip(i as int),
                    other@.skip(i as int),
                ),
            decreases self.children.len() - i,
        {
            assert(self@.skip(i as int).skip(1) =~= self@.skip(i as int + 1));
            assert(other@.skip(i as int).skip(1) =~= other@.skip(i as int + 1));
            i += 1;
        }
        if i == other.children.len() {
            false
        } else if i == self.children.len() {
            true
        } else {
            self.children[i] < other.children[i]
        }
    }

    /// The text of this path.
    pub fn to_string(&self) -> (r: String)
        ensures
            r@ == path_text(self@),
    {
        let mut out = String::new();
        out.push('/');
        out.push('r');
        out.push('o');
        out.push('o');
        out.push('t');
        assert(out@ =~= path_text(self@.take(0)));
        let mut i: usize = 0;
        while i < self.children.len()
            invariant
                0 <= i <= self.children.len(),
                out@ == path_text(self@.take(i as int)),
            decreases self.children.len() - i,
        {
            let ghost before = out@;
            out.push('/');
            out.push('f');
            out.push('0');
            push_decimal(&mut out, self.children[i]);
            proof {
                let t = self@.take(i as int + 1);
                assert(t.drop_last() =~= self@.take(i as int));
                assert(out@ =~= before + seq!['/', 'f', '0'] + decimal(t.last() as nat));
            }
            i += 1;
        }
        assert(self@.take(self.children.len() as int) =~= self@);
        out
    }

    /// Reads a path from its text.
    pub fn from_str(s: &str) -> (r: Result<SubnetID, PathError>)
        ensures
            match r {
                Ok(id) => parse_path(s@) == Ok::<Seq<u64>, PathError>(id@),
                Err(e) => parse_path(s@) == Err::<Seq<u64>, PathError>(e),
            },
    {
        let n = s.unicode_len();
        if !(n >= 5 && s.get_char(0) == '/' && s.get_char(1) == 'r' && s.get_char(2) == 'o'
            && s.get_char(3) == 'o' && s.get_char(4) == 't') {
            return Err(PathError::MissingRoot);
        }
        let mut children: Vec<u64> = Vec::new();
        let mut i: usize = 5;
        while i < n
            invariant
                n == s@.len(),
                5 <= i <= n,
                parse_path(s@) == parse_steps(s@, i as int, children@),
            decreases n - i,
        {
            if !(n - i >= 3 && s.get_char(i) == '/' && s.get_char(i + 1) == 'f' && s.get_char(
                i + 2,
            ) == '0') {
                return Err(PathError::InvalidStep);
            }
            let (val, j) = match scan_digits(s, n, i + 3) {
                Ok(found) => found,
                Err(e) => {
                    return Err(e);
                },
            };
            children.push(val);
            i = j;
        }
        Ok(SubnetID { children })
    }
}

/// The order of the canonical lists: at the first step at which two paths
/// differ the smaller id comes first, and a path comes before its descendants.
pub open spec fn path_precedes(a: Seq<u64>, b: Seq<u64>) -> bool
    decreases a.len(),
{
    if b.len() == 0 {
        false
    } else if a.len() == 0 {
        true
    } else if a[0] != b[0] {
        a[0] < b[0]
    } else {
        path_precedes(a.skip(1), b.skip(1))
    }
}

/// No path comes before itself.
pub proof fn lemma_precedes_irreflexive(a: Seq<u64>)
    ensures
        !path_precedes(a, a),
    decreases a.len(),
{
    if a.len() > 0 {
        lemma_precedes_irreflexive(a.skip(1));
    }
}

/// The order of paths is transitive.
pub proof fn lemma_precedes_transitive(a: Seq<u64>, b: Seq<u64>, c: Seq<u64>)
    requires
        path_precedes(a, b),
        path_precedes(b, c),
    ensures
        path_precedes(a, c),
    decreases a.len(),
{
    if a.len() > 0 && a[0] == b[0] && b[0] == c[0] {
        lemma_precedes_transitive(a.skip(1), b.skip(1), c.skip(1));
    }
}

/// Of two different paths one comes before the other.
pub proof fn lemma_precedes_total(a: Seq<u64>, b: Seq<u64>)
    ensures
        a == b || path_precedes(a, b) || path_precedes(b, a),
    decreases a.len(),
{
    if a.len() > 0 && b.len() > 0 && a[0] == b[0] {
        lemma_precedes_total(a.skip(1), b.skip(1));
        if a.skip(1) == b.skip(1) {
            assert(a =~= seq![a[0]] + a.skip(1));
            assert(b =~= seq![b[0]] + b.skip(1));
        }
    } else if a.len() == 0 && b.len() == 0 {
        assert(a =~= b);
    }
}

impl Clone for SubnetID {
    fn clone(&self) -> (r: SubnetID)
        ensures
            r@ == self@,
    {
        SubnetID { children: ids_clone(&self.children) }
    }
}

impl PartialEq for SubnetID {
    fn eq(&self, other: &SubnetID) -> (r: bool) {
        proof {
            if self@.len() == other@.len() {
                assert(other@.take(self@.len() as int) =~= other@);
            }
        }
        self.children.len() == other.children.len() && self.is_ancestor_or_same(other)
    }
}

impl vstd::std_specs::cmp::PartialEqSpecImpl for SubnetID {
    open spec fn obeys_eq_spec() -> bool {
        true
    }

    open spec fn eq_spec(&self, other: &SubnetID) -> bool {
        self@ == other@
    }
}

} // verus!
