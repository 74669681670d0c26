//! Semantic versions of the managed server: the release type, its string
//! grammar (`major.minor.patch` with optional pre-release and build metadata),
//! verified parsing and printing, and the precedence order.

use vstd::prelude::*;

use crate::digits::{
    all_digits, canon_digits, dec_repr, digit_val, digits_val, is_digit, lemma_canon_digits_repr,
    lemma_dec_repr_canon, lemma_digits_val_nonneg, lemma_digits_val_split, dec_string, push_dec,
};

verus! {

/// A release of the managed server: a semantic version. The identifier lists
/// hold the dot-separated pre-release and build metadata components.
pub struct Version {
    pub major: u64,
    pub minor: u64,
    pub patch: u64,
    pub pre: Vec<String>,
    pub build: Vec<String>,
}

/// The mathematical value of a version.
#[verifier::ext_equal]
pub ghost struct VersionView {
    pub major: int,
    pub minor: int,
    pub patch: int,
    pub pre: Seq<Seq<char>>,
    pub build: Seq<Seq<char>>,
}

impl View for Version {
    type V = VersionView;

    open spec fn view(&self) -> VersionView {
        VersionView {
            major: self.major as int,
            minor: self.minor as int,
            patch: self.patch as int,
            pre: self.pre.deep_view(),
            build: self.build.deep_view(),
        }
    }
}

/// A character allowed in a pre-release or build identifier.
pub open spec fn is_ident_char(c: char) -> bool {
    is_digit(c) || ('a' <= c && c <= 'z') || ('A' <= c && c <= 'Z') || c == '-'
}

pub open spec fn all_ident_chars(s: Seq<char>) -> bool {
    forall|i: int| 0 <= i < s.len() ==> is_ident_char(#[trigger] s[i])
}

/// A valid pre-release identifier: nonempty, identifier characters only, and
/// purely numeric identifiers carry no leading zero.
pub open spec fn valid_pre_ident(s: Seq<char>) -> bool {
    s.len() > 0 && all_ident_chars(s) && (all_digits(s) ==> canon_digits(s))
}

/// A valid build identifier: nonempty, identifier characters only. Leading
/// zeros are allowed here.
pub open spec fn valid_build_ident(s: Seq<char>) -> bool {
    s.len() > 0 && all_ident_chars(s)
}

/// Joins identifier components with a separator character.
pub open spec fn join_idents(parts: Seq<Seq<char>>, sep: char) -> Seq<char>
    decreases parts.len(),
{
    if parts.len() == 0 {
        Seq::empty()
    } else if parts.len() == 1 {
        parts[0]
    } else {
        parts[0] + seq![sep] + join_idents(parts.drop_first(), sep)
    }
}

/// A well-formed version value: components fit the machine word and the
/// metadata identifiers are valid.
pub open spec fn valid_version(v: VersionView) -> bool {
    &&& 0 <= v.major <= u64::MAX
    &&& 0 <= v.minor <= u64::MAX
    &&& 0 <= v.patch <= u64::MAX
    &&& forall|i: int| 0 <= i < v.pre.len() ==> valid_pre_ident(#[trigger] v.pre[i])
    &&& forall|i: int| 0 <= i < v.build.len() ==> valid_build_ident(#[trigger] v.build[i])
}

/// The canonical string of a version: `major.minor.patch`, then `-` and the
/// joined pre-release identifiers if any, then `+` and the joined build
/// identifiers if any.
pub open spec fn version_chars(v: VersionView) -> Seq<char> {
    dec_repr(v.major) + seq!['.'] + dec_repr(v.minor) + seq!['.'] + dec_repr(v.patch) + (if v.pre.len()
        > 0 {
        seq!['-'] + join_idents(v.pre, '.')
    } else {
        Seq::empty()
    }) + (if v.build.len() > 0 {
        seq!['+'] + join_idents(v.build, '.')
    } else {
        Seq::empty()
    })
}

/// A plain release: no pre-release and no build metadata.
pub open spec fn spec_is_plain(v: VersionView) -> bool {
    v.pre.len() == 0 && v.build.len() == 0
}

/// The index of the first occurrence of `c` at or after `from`, or the length
/// of the sequence when there is none.
pub open spec fn find_from(s: Seq<char>, from: int, c: char) -> int
    decreases s.len() - from,
{
    if from < 0 || from >= s.len() {
        s.len() as int
    } else if s[from] == c {
        from
    } else {
        find_from(s, from + 1, c)
    }
}

pub proof fn lemma_find_from(s: Seq<char>, from: int, c: char)
    requires
        0 <= from <= s.len(),
    ensures
        from <= find_from(s, from, c) <= s.len(),
        find_from(s, from, c) < s.len() ==> s[find_from(s, from, c)] == c,
        forall|j: int| from <= j < find_from(s, from, c) ==> s[j] != c,
    decreases s.len() - from,
{
    if from < s.len() && s[from] != c {
        lemma_find_from(s, from + 1, c);
    }
}

/// The end of the run of digit characters starting at `from`.
pub open spec fn digit_run_end(s: Seq<char>, from: int) -> int
    decreases s.len() - from,
{
    if from < 0 || from >= s.len() {
        s.len() as int
    } else if !is_digit(s[from]) {
        from
    } else {
        digit_run_end(s, from + 1)
    }
}

pub proof fn lemma_digit_run_end(s: Seq<char>, from: int)
    requires
        0 <= from <= s.len(),
    ensures
        from <= digit_run_end(s, from) <= s.len(),
        digit_run_end(s, from) < s.len() ==> !is_digit(s[digit_run_end(s, from)]),
        forall|j: int| from <= j < digit_run_end(s, from) ==> is_digit(s[j]),
    decreases s.len() - from,
{
    if from < s.len() && is_digit(s[from]) {
        lemma_digit_run_end(s, from + 1);
    }
}

/// The index of the first `.` in `[from, to)`, or `to` when there is none.
pub open spec fn find_sep(s: Seq<char>, from: int, to: int) -> int
    decreases to - from,
{
    if from < 0 || from >= to || to > s.len() {
        to
    } else if s[from] == '.' {
        from
    } else {
        find_sep(s, from + 1, to)
    }
}

pub proof fn lemma_find_sep(s: Seq<char>, from: int, to: int)
    requires
        0 <= from <= to <= s.len(),
    ensures
        from <= find_sep(s, from, to) <= to,
        find_sep(s, from, to) < to ==> s[find_sep(s, from, to)] == '.',
        forall|j: int| from <= j < find_sep(s, from, to) ==> s[j] != '.',
    decreases to - from,
{
    if from < to && s[from] != '.' {
        lemma_find_sep(s, from + 1, to);
    }
}

/// Splits `s[from..to]` on `.` separators into its components.
pub open spec fn split_parts(s: Seq<char>, from: int, to: int) -> Seq<Seq<char>>
    decreases to - from,
        when 0 <= from <= to <= s.len()
        via split_parts_dec
{
    let i = find_sep(s, from, to);
    if i >= to {
        seq![s.subrange(from, to)]
    } else {
        seq![s.subrange(from, i)] + split_parts(s, i + 1, to)
    }
}

#[via_fn]
proof fn split_parts_dec(s: Seq<char>, from: int, to: int) {
    lemma_find_sep(s, from, to);
}

/// A nonempty digit run whose value fits in a `u64`.
pub open spec fn num_fits(s: Seq<char>) -> bool {
    s.len() > 0 && all_digits(s) && digits_val(s) <= u64::MAX
}

/// A numeral component of a version core: canonical and within range.
pub open spec fn core_num_ok(s: Seq<char>) -> bool {
    canon_digits(s) && digits_val(s) <= u64::MAX
}

/// Parses a version string: the core `major.minor.patch` numerals, then an
/// optional `-`-introduced pre-release identifier list and an optional
/// `+`-introduced build identifier list. Returns the version value, or `None`
/// when the string is not a version.
pub open spec fn spec_parse_version(s: Seq<char>) -> Option<VersionView> {
    let e1 = digit_run_end(s, 0);
    let maj = s.subrange(0, e1);
    if !(e1 < s.len() && s[e1] == '.' && core_num_ok(maj)) {
        None
    } else {
        let b2 = e1 + 1;
        let e2 = digit_run_end(s, b2);
        let min = s.subrange(b2, e2);
        if !(e2 < s.len() && s[e2] == '.' && core_num_ok(min)) {
            None
        } else {
            let b3 = e2 + 1;
            let e3 = digit_run_end(s, b3);
            let pat = s.subrange(b3, e3);
            if !core_num_ok(pat) {
                None
            } else {
                let core = VersionView {
                    major: digits_val(maj),
                    minor: digits_val(min),
                    patch: digits_val(pat),
                    pre: Seq::empty(),
                    build: Seq::empty(),
                };
                if e3 == s.len() {
                    Some(core)
                } else if s[e3] == '-' {
                    let p = find_from(s, e3 + 1, '+');
                    let pre = split_parts(s, e3 + 1, p);
                    if !(forall|i: int| 0 <= i < pre.len() ==> valid_pre_ident(#[trigger] pre[i])) {
                        None
                    } else if p == s.len() {
                        Some(VersionView { pre, ..core })
                    } else {
                        let build = split_parts(s, p + 1, s.len() as int);
                        if forall|i: int|
                            0 <= i < build.len() ==> valid_build_ident(#[trigger] build[i]) {
                            Some(VersionView { pre, build, ..core })
                        } else {
                            None
                        }
                    }
                } else if s[e3] == '+' {
                    let build = split_parts(s, e3 + 1, s.len() as int);
                    if forall|i: int| 0 <= i < build.len() ==> valid_build_ident(#[trigger] build[i]) {
                        Some(VersionView { build, ..core })
                    } else {
                        None
                    }
                } else {
                    None
                }
            }
        }
    }
}


/// True when the character is a decimal digit.
fn digit_exec(c: char) -> (r: bool)
    ensures
        r == is_digit(c),
{
    let u = c as u32;
    48 <= u && u <= 57
}

/// True when the character is a digit or a dot.
pub(crate) fn digit_or_dot(c: char) -> (r: bool)
    ensures
        r == (is_digit(c) || c == '.'),
{
    let u = c as u32;
    (48 <= u && u <= 57) || u == 46
}

/// True when the character may stand in a metadata identifier.
fn ident_char_exec(c: char) -> (r: bool)
    ensures
        r == is_ident_char(c),
{
    let u = c as u32;
    (48 <= u && u <= 57) || (97 <= u && u <= 122) || (65 <= u && u <= 90) || u == 45
}

/// The index of the first occurrence of `c` at or after `from`.
pub(crate) fn find_char(s: &str, from: usize, c: char) -> (r: usize)
    requires
        from as int <= s@.len(),
    ensures
        r as int == find_from(s@, from as int, c),
        from <= r && r as int <= s@.len(),
{
    proof {
        lemma_find_from(s@, from as int, c);
    }
    let n = s.unicode_len();
    let mut i = from;
    while i < n
        invariant
            from <= i <= n,
            n == s@.len(),
            find_from(s@, from as int, c) == find_from(s@, i as int, c),
        decreases n - i,
    {
        if s.get_char(i) == c {
            return i;
        }
        i = i + 1;
    }
    i
}

/// The end of the digit run starting at `from`.
pub(crate) fn digit_run_exec(s: &str, from: usize) -> (r: usize)
    requires
        from as int <= s@.len(),
    ensures
        r as int == digit_run_end(s@, from as int),
        from <= r && r as int <= s@.len(),
{
    proof {
        lemma_digit_run_end(s@, from as int);
    }
    let n = s.unicode_len();
    let mut i = from;
    while i < n
        invariant
            from <= i <= n,
            n == s@.len(),
            digit_run_end(s@, from as int) == digit_run_end(s@, i as int),
        decreases n - i,
    {
        if !digit_exec(s.get_char(i)) {
            return i;
        }
        i = i + 1;
    }
    i
}

/// Reads the numeral in `s[from..to]`: its value when it is a nonempty digit
/// run that fits in a `u64`, and `None` otherwise.
pub(crate) fn parse_dec_range(s: &str, from: usize, to: usize) -> (r: Option<u64>)
    requires
        from <= to,
        to as int <= s@.len(),
    ensures
        r == if num_fits(s@.subrange(from as int, to as int)) {
            Some(digits_val(s@.subrange(from as int, to as int)) as u64)
        } else {
            None::<u64>
        },
{
    let ghost sub = s@.subrange(from as int, to as int);
    if from == to {
        return None;
    }
    let mut acc: u64 = 0;
    let mut i = from;
    while i < to
        invariant
            from <= i <= to,
            to as int <= s@.len(),
            sub == s@.subrange(from as int, to as int),
            forall|j: int| 0 <= j < i - from ==> is_digit(#[trigger] sub[j]),
            acc as int == digits_val(sub.take(i - from)),
        decreases to - i,
    {
        let c = s.get_char(i);
        proof {
            assert(sub[i - from] == s@[i as int]);
        }
        if !digit_exec(c) {
            proof {
                assert(!is_digit(sub[i - from]));
                assert(!all_digits(sub));
            }
            return None;
        }
        let d: u64 = (c as u32 - 48) as u64;
        proof {
            assert(is_digit(c));
            assert(d as int == digit_val(c));
        }
        if acc > (u64::MAX - d) / 10 {
            proof {
                let k = i + 1 - from;
                let head = sub.take(k);
                assert(head.drop_last() =~= sub.take(k - 1));
                assert(head.last() == sub[k - 1]);
                assert(digits_val(head) == acc * 10 + d);
                assert(acc * 10 + d > u64::MAX) by {
                    let q = (u64::MAX - d) / 10;
                    vstd::arithmetic::div_mod::lemma_fundamental_div_mod(u64::MAX - d, 10);
                    assert(acc >= q + 1);
                    assert(acc * 10 >= (q + 1) * 10) by (nonlinear_arith)
                        requires
                            acc >= q + 1,
                    ;
                }
                if all_digits(sub) {
                    lemma_digits_val_split(sub, k);
                    let pw = vstd::arithmetic::power::pow(10, (sub.len() - k) as nat);
                    vstd::arithmetic::power::lemma_pow_positive(10, (sub.len() - k) as nat);
                    assert(forall|j: int| 0 <= j < sub.skip(k).len() ==> is_digit(#[trigger] sub.skip(k)[j]));
                    lemma_digits_val_nonneg(sub.skip(k));
                    assert(digits_val(head) * pw >= digits_val(head)) by (nonlinear_arith)
                        requires
                            pw >= 1,
                            digits_val(head) > 0,
                    ;
                    assert(digits_val(sub) > u64::MAX);
                }
            }
            return None;
        }
        proof {
            let q = (u64::MAX - d) / 10;
            vstd::arithmetic::div_mod::lemma_fundamental_div_mod(u64::MAX - d, 10);
            assert(acc * 10 <= q * 10) by (nonlinear_arith)
                requires
                    acc <= q,
            ;
        }
        acc = acc * 10 + d;
        proof {
            let k = i + 1 - from;
            assert(sub.take(k).drop_last() =~= sub.take(k - 1));
            assert(sub.take(k).last() == sub[k - 1]);
        }
        i = i + 1;
    }
    proof {
        assert(sub.take(to - from) =~= sub);
        assert(all_digits(sub));
    }
    Some(acc)
}


/// Splits `s[from..to]` on `.` into owned components.
fn split_parts_exec(s: &str, from: usize, to: usize) -> (r: Vec<String>)
    requires
        from <= to,
        to as int <= s@.len(),
    ensures
        r.deep_view() == split_parts(s@, from as int, to as int),
{
    let mut parts: Vec<String> = Vec::new();
    let mut cur = from;
    proof {
        assert(parts.deep_view() =~= Seq::<Seq<char>>::empty());
    }
    loop
        invariant_except_break
            from <= cur <= to,
            to as int <= s@.len(),
            split_parts(s@, from as int, to as int) =~= parts.deep_view() + split_parts(
                s@,
                cur as int,
                to as int,
            ),
        ensures
            parts.deep_view() =~= split_parts(s@, from as int, to as int),
        decreases to - cur,
    {
        proof {
            lemma_find_sep(s@, cur as int, to as int);
        }
        let i = find_char(s, cur, '.');
        let ghost sep = find_sep(s@, cur as int, to as int);
        let stop = if i > to {
            to
        } else {
            i
        };
        proof {
            lemma_find_from(s@, cur as int, '.');
            if find_from(s@, cur as int, '.') >= to {
                assert(forall|j: int| cur <= j < to ==> s@[j] != '.');
                assert(sep == to);
            } else {
                assert(s@[find_from(s@, cur as int, '.') as int] == '.');
                assert(sep <= find_from(s@, cur as int, '.'));
                assert(forall|j: int| cur <= j < sep ==> s@[j] != '.');
                assert(sep == find_from(s@, cur as int, '.'));
            }
            assert(stop as int == sep);
        }
        let ghost before = parts.deep_view();
        let part = s.substring_char(cur, stop).to_owned();
        parts.push(part);
        proof {
            assert(parts.deep_view() =~= before.push(s@.subrange(cur as int, stop as int)));
        }
        if stop == to {
            proof {
                assert(split_parts(s@, cur as int, to as int) =~= seq![
                    s@.subrange(cur as int, to as int),
                ]);
                assert(parts.deep_view() =~= split_parts(s@, from as int, to as int));
            }
            break;
        }
        cur = stop + 1;
    }
    parts
}

/// True when every component is a valid pre-release identifier.
fn all_valid_pre_idents(parts: &Vec<String>) -> (r: bool)
    ensures
        r == forall|i: int|
            0 <= i < parts.deep_view().len() ==> valid_pre_ident(#[trigger] parts.deep_view()[i]),
{
    let mut k: usize = 0;
    while k < parts.len()
        invariant
            0 <= k <= parts.len(),
            forall|i: int| 0 <= i < k ==> valid_pre_ident(#[trigger] parts.deep_view()[i]),
        decreases parts.len() - k,
    {
        if !valid_pre_ident_exec(parts[k].as_str()) {
            proof {
                assert(!valid_pre_ident(parts.deep_view()[k as int]));
            }
            return false;
        }
        k = k + 1;
    }
    true
}

/// True when every component is a valid build identifier.
fn all_valid_build_idents(parts: &Vec<String>) -> (r: bool)
    ensures
        r == forall|i: int|
            0 <= i < parts.deep_view().len() ==> valid_build_ident(#[trigger] parts.deep_view()[i]),
{
    let mut k: usize = 0;
    while k < parts.len()
        invariant
            0 <= k <= parts.len(),
            forall|i: int| 0 <= i < k ==> valid_build_ident(#[trigger] parts.deep_view()[i]),
        decreases parts.len() - k,
    {
        if !valid_build_ident_exec(parts[k].as_str()) {
            proof {
                assert(!valid_build_ident(parts.deep_view()[k as int]));
            }
            return false;
        }
        k = k + 1;
    }
    true
}

/// True when the string is a valid build identifier.
fn valid_build_ident_exec(s: &str) -> (r: bool)
    ensures
        r == valid_build_ident(s@),
{
    let n = s.unicode_len();
    if n == 0 {
        return false;
    }
    let mut i: usize = 0;
    while i < n
        invariant
            0 <= i <= n,
            n == s@.len(),
            forall|j: int| 0 <= j < i ==> is_ident_char(#[trigger] s@[j]),
        decreases n - i,
    {
        if !ident_char_exec(s.get_char(i)) {
            return false;
        }
        i = i + 1;
    }
    true
}

/// True when the string is a valid pre-release identifier.
fn valid_pre_ident_exec(s: &str) -> (r: bool)
    ensures
        r == valid_pre_ident(s@),
{
    let n = s.unicode_len();
    if n == 0 {
        return false;
    }
    let mut i: usize = 0;
    let mut digits_only = true;
    while i < n
        invariant
            0 <= i <= n,
            n == s@.len(),
            forall|j: int| 0 <= j < i ==> is_ident_char(#[trigger] s@[j]),
            digits_only == forall|j: int| 0 <= j < i ==> is_digit(#[trigger] s@[j]),
        decreases n - i,
    {
        let c = s.get_char(i);
        if !ident_char_exec(c) {
            return false;
        }
        if !digit_exec(c) {
            digits_only = false;
        }
        i = i + 1;
    }
    if digits_only && n > 1 && s.get_char(0) == '0' {
        proof {
            assert(all_digits(s@));
            assert(!canon_digits(s@));
        }
        return false;
    }
    proof {
        if all_digits(s@) {
            assert(digits_only);
            assert(canon_digits(s@));
        }
    }
    true
}


/// Appends the components from `from` on, joined with the one-character
/// separator.
pub(crate) fn push_joined_with(out: &mut String, parts: &Vec<String>, from: usize, sep: &str)
    requires
        from < parts.len(),
        sep@.len() == 1,
    ensures
        final(out)@ == old(out)@ + join_idents(parts.deep_view().skip(from as int), sep@[0]),
    decreases parts.len() - from,
{
    let ghost sepc = sep@[0];
    out.append(parts[from].as_str());
    if from + 1 < parts.len() {
        out.append(sep);
        push_joined_with(out, parts, from + 1, sep);
        proof {
            let ps = parts.deep_view().skip(from as int);
            assert(ps[0] == parts.deep_view()[from as int]);
            assert(ps.drop_first() =~= parts.deep_view().skip(from as int + 1));
            assert(sep@ =~= seq![sepc]);
            assert(out@ =~= old(out)@ + join_idents(parts.deep_view().skip(from as int), sepc));
        }
    } else {
        proof {
            let ps = parts.deep_view().skip(from as int);
            assert(ps.len() == 1);
            assert(ps[0] == parts.deep_view()[from as int]);
            assert(join_idents(ps, '.') == ps[0]);
        }
    }
}

impl Version {
    /// A plain release, without metadata.
    pub fn new(major: u64, minor: u64, patch: u64) -> (r: Version)
        ensures
            r@.major == major as int,
            r@.minor == minor as int,
            r@.patch == patch as int,
            spec_is_plain(r@),
            valid_version(r@),
    {
        let r = Version { major, minor, patch, pre: Vec::new(), build: Vec::new() };
        proof {
            assert(r@.pre.len() == 0);
            assert(r@.build.len() == 0);
        }
        r
    }

    /// The canonical string form of the version.
    pub fn version_string(&self) -> (r: String)
        ensures
            r@ == version_chars(self@),
    {
        proof {
            reveal_strlit(".");
            reveal_strlit("-");
            reveal_strlit("+");
        }
        let mut out = dec_string(self.major);
        out.append(".");
        push_dec(&mut out, self.minor);
        out.append(".");
        push_dec(&mut out, self.patch);
        if self.pre.len() > 0 {
            out.append("-");
            push_joined_with(&mut out, &self.pre, 0, ".");
            proof {
                assert(self.pre.deep_view().skip(0) =~= self@.pre);
            }
        }
        if self.build.len() > 0 {
            out.append("+");
            push_joined_with(&mut out, &self.build, 0, ".");
            proof {
                assert(self.build.deep_view().skip(0) =~= self@.build);
            }
        }
        proof {
            assert(out@ =~= version_chars(self@));
        }
        out
    }

    /// Parses a version string; `None` exactly when the string does not
    /// belong to the version grammar.
    pub fn parse(s: &str) -> (r: Option<Version>)
        ensures
            match r {
                Some(v) => spec_parse_version(s@) == Some(v@),
                None => spec_parse_version(s@) is None,
            },
    {
        let n = s.unicode_len();
        let e1 = digit_run_exec(s, 0);
        proof {
            lemma_digit_run_end(s@, 0);
        }
        let ghost maj = s@.subrange(0, e1 as int);
        proof {
            assert(forall|j: int| 0 <= j < maj.len() ==> is_digit(#[trigger] maj[j]));
        }
        if e1 >= n || s.get_char(e1) != '.' {
            return None;
        }
        if e1 == 0 {
            return None;
        }
        let major = match parse_dec_range(s, 0, e1) {
            Some(v) => v,
            None => {
                proof {
                    assert(!num_fits(maj));
                    assert(!core_num_ok(maj));
                }
                return None;
            },
        };
        if s.get_char(0) == '0' && e1 != 1 {
            proof {
                assert(maj[0] == '0');
                assert(!canon_digits(maj));
            }
            return None;
        }
        proof {
            lemma_digits_val_nonneg(maj);
            assert(core_num_ok(maj));
        }
        let b2 = e1 + 1;
        let e2 = digit_run_exec(s, b2);
        proof {
            lemma_digit_run_end(s@, b2 as int);
        }
        let ghost min = s@.subrange(b2 as int, e2 as int);
        proof {
            assert(forall|j: int| 0 <= j < min.len() ==> is_digit(#[trigger] min[j]));
        }
        if e2 >= n || s.get_char(e2) != '.' {
            return None;
        }
        if e2 == b2 {
            return None;
        }
        let minor = match parse_dec_range(s, b2, e2) {
            Some(v) => v,
            None => {
                proof {
                    assert(!num_fits(min));
                    assert(!core_num_ok(min));
                }
                return None;
            },
        };
        if s.get_char(b2) == '0' && e2 != b2 + 1 {
            proof {
                assert(min[0] == '0');
                assert(!canon_digits(min));
            }
            return None;
        }
        proof {
            lemma_digits_val_nonneg(min);
            assert(core_num_ok(min));
        }
        let b3 = e2 + 1;
        let e3 = digit_run_exec(s, b3);
        proof {
            lemma_digit_run_end(s@, b3 as int);
        }
        let ghost pat = s@.subrange(b3 as int, e3 as int);
        proof {
            assert(forall|j: int| 0 <= j < pat.len() ==> is_digit(#[trigger] pat[j]));
        }
        if e3 == b3 {
            return None;
        }
        let patch = match parse_dec_range(s, b3, e3) {
            Some(v) => v,
            None => {
                proof {
                    assert(!num_fits(pat));
                    assert(!core_num_ok(pat));
                }
                return None;
            },
        };
        if s.get_char(b3) == '0' && e3 != b3 + 1 {
            proof {
                assert(pat[0] == '0');
                assert(!canon_digits(pat));
            }
            return None;
        }
        proof {
            lemma_digits_val_nonneg(pat);
            assert(core_num_ok(pat));
        }
        if e3 == n {
            let v = Version { major, minor, patch, pre: Vec::new(), build: Vec::new() };
            proof {
                assert(v@.pre =~= Seq::<Seq<char>>::empty());
                assert(v@.build =~= Seq::<Seq<char>>::empty());
                assert(spec_parse_version(s@) == Some(v@));
            }
            return Some(v);
        }
        let c = s.get_char(e3);
        if c == '-' {
            let p = find_char(s, e3 + 1, '+');
            proof {
                lemma_find_from(s@, e3 as int + 1, '+');
            }
            let pre = split_parts_exec(s, e3 + 1, p);
            if !all_valid_pre_idents(&pre) {
                return None;
            }
            if p == n {
                let v = Version { major, minor, patch, pre, build: Vec::new() };
                proof {
                    assert(v@.build =~= Seq::<Seq<char>>::empty());
                    assert(spec_parse_version(s@) == Some(v@));
                }
                return Some(v);
            }
            let build = split_parts_exec(s, p + 1, n);
            if !all_valid_build_idents(&build) {
                return None;
            }
            let v = Version { major, minor, patch, pre, build };
            proof {
                assert(spec_parse_version(s@) == Some(v@));
            }
            Some(v)
        } else if c == '+' {
            let build = split_parts_exec(s, e3 + 1, n);
            if !all_valid_build_idents(&build) {
                return None;
            }
            let v = Version { major, minor, patch, pre: Vec::new(), build };
            proof {
                assert(v@.pre =~= Seq::<Seq<char>>::empty());
                assert(spec_parse_version(s@) == Some(v@));
            }
            Some(v)
        } else {
            None
        }
    }
}


/// Lexicographic order on character sequences by code point.
pub open spec fn lex_lt(a: Seq<char>, b: Seq<char>) -> bool
    decreases a.len(),
{
    if b.len() == 0 {
        false
    } else if a.len() == 0 {
        true
    } else if a[0] != b[0] {
        (a[0] as u32) < (b[0] as u32)
    } else {
        lex_lt(a.drop_first(), b.drop_first())
    }
}

/// Order between two metadata identifiers: two numeric identifiers order by
/// value (canonical numerals: shorter first, same length lexically), a
/// numeric identifier precedes an alphanumeric one, and alphanumeric
/// identifiers order lexically.
pub open spec fn ident_lt(a: Seq<char>, b: Seq<char>) -> bool {
    if all_digits(a) && all_digits(b) {
        a.len() < b.len() || (a.len() == b.len() && lex_lt(a, b))
    } else if all_digits(a) {
        true
    } else if all_digits(b) {
        false
    } else {
        lex_lt(a, b)
    }
}

/// Order between pre-release identifier lists: pairwise by `ident_lt`, a
/// strict prefix preceding any extension of it.
pub open spec fn pre_list_lt(a: Seq<Seq<char>>, b: Seq<Seq<char>>) -> bool
    decreases a.len(),
{
    if a.len() == 0 {
        b.len() > 0
    } else if b.len() == 0 {
        false
    } else if a[0] == b[0] {
        pre_list_lt(a.drop_first(), b.drop_first())
    } else {
        ident_lt(a[0], b[0])
    }
}

/// Version precedence: by the numeric triple; on an equal triple a version
/// with pre-release metadata precedes one without, and two pre-releases
/// order by their identifier lists. Build metadata never affects precedence.
pub open spec fn version_lt(a: VersionView, b: VersionView) -> bool {
    if a.major != b.major {
        a.major < b.major
    } else if a.minor != b.minor {
        a.minor < b.minor
    } else if a.patch != b.patch {
        a.patch < b.patch
    } else {
        (a.pre.len() > 0 && b.pre.len() == 0) || (a.pre.len() > 0 && b.pre.len() > 0 && pre_list_lt(
            a.pre,
            b.pre,
        ))
    }
}

/// A stable-channel release: even minor component and no metadata.
pub open spec fn spec_is_stable(v: VersionView) -> bool {
    v.minor % 2 == 0 && spec_is_plain(v)
}

/// True when the two strings hold the same characters.
pub fn str_eq(a: &str, b: &str) -> (r: bool)
    ensures
        r == (a@ == b@),
{
    let n = a.unicode_len();
    if n != b.unicode_len() {
        return false;
    }
    let mut i: usize = 0;
    while i < n
        invariant
            0 <= i <= n,
            n == a@.len(),
            n == b@.len(),
            forall|j: int| 0 <= j < i ==> a@[j] == b@[j],
        decreases n - i,
    {
        if a.get_char(i) != b.get_char(i) {
            return false;
        }
        i = i + 1;
    }
    proof {
        assert(a@ =~= b@);
    }
    true
}

/// Lexicographic comparison of two strings.
fn lex_lt_exec(a: &str, b: &str) -> (r: bool)
    ensures
        r == lex_lt(a@, b@),
{
    let an = a.unicode_len();
    let bn = b.unicode_len();
    let mut i: usize = 0;
    proof {
        assert(a@.skip(0) =~= a@);
        assert(b@.skip(0) =~= b@);
    }
    loop
        invariant
            0 <= i <= an,
            0 <= i <= bn,
            an == a@.len(),
            bn == b@.len(),
            lex_lt(a@, b@) == lex_lt(a@.skip(i as int), b@.skip(i as int)),
        decreases an - i,
    {
        if i >= bn {
            proof {
                assert(b@.skip(i as int).len() == 0);
            }
            return false;
        }
        if i >= an {
            proof {
                assert(a@.skip(i as int).len() == 0);
                assert(b@.skip(i as int).len() > 0);
            }
            return true;
        }
        let ca = a.get_char(i);
        let cb = b.get_char(i);
        proof {
            assert(a@.skip(i as int)[0] == a@[i as int]);
            assert(b@.skip(i as int)[0] == b@[i as int]);
        }
        if ca != cb {
            return (ca as u32) < (cb as u32);
        }
        proof {
            assert(a@.skip(i as int).drop_first() =~= a@.skip(i as int + 1));
            assert(b@.skip(i as int).drop_first() =~= b@.skip(i as int + 1));
        }
        i = i + 1;
    }
}

/// True when every character of the string is a decimal digit.
fn all_digits_exec(s: &str) -> (r: bool)
    ensures
        r == all_digits(s@),
{
    let n = s.unicode_len();
    let mut i: usize = 0;
    while i < n
        invariant
            0 <= i <= n,
            n == s@.len(),
            forall|j: int| 0 <= j < i ==> is_digit(#[trigger] s@[j]),
        decreases n - i,
    {
        if !digit_exec(s.get_char(i)) {
            return false;
        }
        i = i + 1;
    }
    true
}

/// Comparison of two metadata identifiers.
fn ident_lt_exec(a: &str, b: &str) -> (r: bool)
    ensures
        r == ident_lt(a@, b@),
{
    let da = all_digits_exec(a);
    let db = all_digits_exec(b);
    if da && db {
        a.unicode_len() < b.unicode_len() || (a.unicode_len() == b.unicode_len() && lex_lt_exec(
            a,
            b,
        ))
    } else if da {
        true
    } else if db {
        false
    } else {
        lex_lt_exec(a, b)
    }
}

/// Comparison of two pre-release identifier lists.
fn pre_list_lt_exec(a: &Vec<String>, b: &Vec<String>) -> (r: bool)
    ensures
        r == pre_list_lt(a.deep_view(), b.deep_view()),
{
    let mut i: usize = 0;
    proof {
        assert(a.deep_view().skip(0) =~= a.deep_view());
        assert(b.deep_view().skip(0) =~= b.deep_view());
    }
    loop
        invariant
            0 <= i <= a.len(),
            0 <= i <= b.len(),
            pre_list_lt(a.deep_view(), b.deep_view()) == pre_list_lt(
                a.deep_view().skip(i as int),
                b.deep_view().skip(i as int),
            ),
        decreases a.len() - i,
    {
        if i >= a.len() {
            proof {
                assert(a.deep_view().skip(i as int).len() == 0);
            }
            return i < b.len();
        }
        if i >= b.len() {
            proof {
                assert(b.deep_view().skip(i as int).len() == 0);
                assert(a.deep_view().skip(i as int).len() > 0);
            }
            return false;
        }
        proof {
            assert(a.deep_view().skip(i as int)[0] == a.deep_view()[i as int]);
            assert(b.deep_view().skip(i as int)[0] == b.deep_view()[i as int]);
        }
        if !str_eq(a[i].as_str(), b[i].as_str()) {
            return ident_lt_exec(a[i].as_str(), b[i].as_str());
        }
        proof {
            assert(a.deep_view().skip(i as int).drop_first() =~= a.deep_view().skip(i as int + 1));
            assert(b.deep_view().skip(i as int).drop_first() =~= b.deep_view().skip(i as int + 1));
        }
        i = i + 1;
    }
}

impl Version {
    /// True when `self` precedes `other` in version precedence order.
    pub fn precedes(&self, other: &Version) -> (r: bool)
        ensures
            r == version_lt(self@, other@),
    {
        if self.major != other.major {
            return self.major < other.major;
        }
        if self.minor != other.minor {
            return self.minor < other.minor;
        }
        if self.patch != other.patch {
            return self.patch < other.patch;
        }
        if self.pre.len() > 0 && other.pre.len() == 0 {
            true
        } else if self.pre.len() > 0 && other.pre.len() > 0 {
            pre_list_lt_exec(&self.pre, &other.pre)
        } else {
            false
        }
    }

    /// An identical copy of the version.
    pub fn duplicate(&self) -> (r: Version)
        ensures
            r@ == self@,
    {
        let r = Version {
            major: self.major,
            minor: self.minor,
            patch: self.patch,
            pre: clone_string_vec(&self.pre),
            build: clone_string_vec(&self.build),
        };
        proof {
            assert(r@.pre =~= self@.pre);
            assert(r@.build =~= self@.build);
        }
        r
    }

    /// True when the version carries no pre-release or build metadata.
    pub fn is_plain(&self) -> (r: bool)
        ensures
            r == spec_is_plain(self@),
    {
        self.pre.len() == 0 && self.build.len() == 0
    }

    /// True when the release belongs to the stable channel: even minor
    /// component and no metadata.
    pub fn is_stable(&self) -> (r: bool)
        ensures
            r == spec_is_stable(self@),
    {
        self.minor % 2 == 0 && self.is_plain()
    }
}

/// A copy of a list of strings.
pub(crate) fn clone_string_vec(v: &Vec<String>) -> (r: Vec<String>)
    ensures
        r.deep_view() == v.deep_view(),
{
    let mut out: Vec<String> = Vec::new();
    let mut i: usize = 0;
    while i < v.len()
        invariant
            0 <= i <= v.len(),
            out.deep_view() =~= v.deep_view().take(i as int),
        decreases v.len() - i,
    {
        let ghost before = out.deep_view();
        out.push(v[i].clone());
        proof {
            assert(out.deep_view() =~= before.push(v.deep_view()[i as int]));
            assert(out.deep_view() =~= v.deep_view().take(i as int + 1));
        }
        i = i + 1;
    }
    proof {
        assert(v.deep_view().take(v.len() as int) =~= v.deep_view());
    }
    out
}

/// Of an already-selected version and a newly found one, the one to keep:
/// the newly found version unless the existing one is strictly newer.
pub fn select_newer_version(existing: Option<Version>, found: Version) -> (r: Version)
    ensures
        r@ == match existing {
            Some(e) => if version_lt(found@, e@) {
                e@
            } else {
                found@
            },
            None => found@,
        },
{
    match existing {
        Some(e) => {
            if found.precedes(&e) {
                e
            } else {
                found
            }
        },
        None => found,
    }
}


/// The digit run from `from` ends exactly at `k` when `[from, k)` holds
/// digits and `k` holds none.
proof fn lemma_digit_run_at(s: Seq<char>, from: int, k: int)
    requires
        0 <= from <= k <= s.len(),
        forall|j: int| from <= j < k ==> is_digit(#[trigger] s[j]),
        k < s.len() ==> !is_digit(s[k]),
    ensures
        digit_run_end(s, from) == k,
    decreases k - from,
{
    if from < k {
        lemma_digit_run_at(s, from + 1, k);
    }
}

/// Law: printing any well-formed release and parsing the string yields the
/// release back. Together with `lemma_parse_prints_back`, the string form of
/// a release round-trips exactly, metadata included.
pub proof fn lemma_version_round_trip(v: VersionView)
    requires
        valid_version(v),
    ensures
        spec_parse_version(version_chars(v)) == Some(v),
{
    let a = dec_repr(v.major);
    let b = dec_repr(v.minor);
    let c = dec_repr(v.patch);
    lemma_dec_repr_canon(v.major);
    lemma_dec_repr_canon(v.minor);
    lemma_dec_repr_canon(v.patch);
    let s = version_chars(v);
    let core0 = a + seq!['.'] + b + seq!['.'] + c;
    let jp = join_idents(v.pre, '.');
    let jb = join_idents(v.build, '.');
    let pre_part: Seq<char> = if v.pre.len() > 0 {
        seq!['-'] + jp
    } else {
        Seq::empty()
    };
    let build_part: Seq<char> = if v.build.len() > 0 {
        seq!['+'] + jb
    } else {
        Seq::empty()
    };
    let tail = pre_part + build_part;
    assert(s =~= core0 + tail);
    let e1 = a.len() as int;
    let b2 = e1 + 1;
    let e2 = b2 + b.len() as int;
    let b3 = e2 + 1;
    let e3 = b3 + c.len() as int;
    assert(e3 == core0.len());
    assert(forall|j: int| 0 <= j < e3 ==> s[j] == core0[j]);
    assert(forall|j: int| e3 <= j < s.len() ==> s[j] == tail[j - e3]);
    assert(forall|j: int| 0 <= j < e1 ==> s[j] == a[j]);
    assert(s[e1] == '.');
    assert(forall|j: int| b2 <= j < e2 ==> s[j] == b[j - b2]);
    assert(s[e2] == '.');
    assert(forall|j: int| b3 <= j < e3 ==> s[j] == c[j - b3]);
    assert(!is_digit('.') && !is_digit('-') && !is_digit('+'));
    assert(!is_ident_char('+') && !is_ident_char('.'));
    lemma_digit_run_at(s, 0, e1);
    assert(s.subrange(0, e1) =~= a);
    lemma_digit_run_at(s, b2, e2);
    assert(s.subrange(b2, e2) =~= b);
    if e3 < s.len() {
        assert(s[e3] == tail[0]);
        assert(tail[0] == '-' || tail[0] == '+');
    }
    lemma_digit_run_at(s, b3, e3);
    assert(s.subrange(b3, e3) =~= c);
    assert(core_num_ok(a));
    assert(core_num_ok(b));
    assert(core_num_ok(c));

    if v.pre.len() == 0 && v.build.len() == 0 {
        assert(e3 == s.len());
        let parsed = spec_parse_version(s);
        assert(parsed is Some);
        let w = parsed->Some_0;
        assert(w.pre =~= v.pre);
        assert(w.build =~= v.build);
        assert(w =~= v);
    } else if v.pre.len() > 0 {
        assert(s[e3] == '-');
        lemma_pre_round_trip(v, s, e3);
    } else {
        assert(s[e3] == '+');
        assert(tail =~= seq!['+'] + jb);
        let end = s.len() as int;
        assert(end == e3 + 1 + jb.len());
        lemma_region_is_join(s, e3 + 1, end, v.build, jb);
        lemma_metadata_split(s, e3 + 1, end, v.build);
        let parsed = spec_parse_version(s);
        assert(parsed is Some);
        let w = parsed->Some_0;
        assert(w.pre =~= v.pre);
        assert(w.build == v.build);
        assert(w =~= v);
    }
}

/// The pre-release half of the round trip: with the printed string's core
/// settled, the `-`-introduced section parses back to the pre-release list
/// and, when present, the `+`-introduced section to the build list.
proof fn lemma_pre_round_trip(v: VersionView, s: Seq<char>, e3: int)
    requires
        valid_version(v),
        v.pre.len() > 0,
        s == version_chars(v),
        e3 == dec_repr(v.major).len() + 1 + dec_repr(v.minor).len() + 1 + dec_repr(v.patch).len(),
        digit_run_end(s, 0) == dec_repr(v.major).len() as int,
        digit_run_end(s, dec_repr(v.major).len() as int + 1) == dec_repr(v.major).len() + 1
            + dec_repr(v.minor).len(),
        digit_run_end(s, e3 - dec_repr(v.patch).len()) == e3,
        s.subrange(0, digit_run_end(s, 0)) == dec_repr(v.major),
        s.subrange(
            dec_repr(v.major).len() as int + 1,
            digit_run_end(s, dec_repr(v.major).len() as int + 1),
        ) == dec_repr(v.minor),
        s.subrange(e3 - dec_repr(v.patch).len(), e3) == dec_repr(v.patch),
        e3 < s.len(),
        s[e3] == '-',
    ensures
        spec_parse_version(s) == Some(v),
{
    lemma_dec_repr_canon(v.major);
    lemma_dec_repr_canon(v.minor);
    lemma_dec_repr_canon(v.patch);
    let jp = join_idents(v.pre, '.');
    let jb = join_idents(v.build, '.');
    let core0 = dec_repr(v.major) + seq!['.'] + dec_repr(v.minor) + seq!['.'] + dec_repr(v.patch);
    let build_part: Seq<char> = if v.build.len() > 0 {
        seq!['+'] + jb
    } else {
        Seq::empty()
    };
    assert(s =~= core0 + (seq!['-'] + jp) + build_part);
    let q = e3 + 1 + jp.len() as int;
    assert(forall|j: int| e3 + 1 <= j < q ==> s[j] == jp[j - e3 - 1]);
    assert(forall|i: int| 0 <= i < v.pre.len() ==> valid_build_ident(#[trigger] v.pre[i]));
    lemma_join_ident_chars(v.pre);
    assert(!is_ident_char('+') && !is_ident_char('.'));
    assert(forall|j: int| e3 + 1 <= j < q ==> s[j] != '+');
    if v.build.len() == 0 {
        assert(q == s.len());
        lemma_find_from_at(s, e3 + 1, q, '+');
    } else {
        assert(s[q] == '+');
        lemma_find_from_at(s, e3 + 1, q, '+');
    }
    lemma_region_is_join(s, e3 + 1, q, v.pre, jp);
    lemma_metadata_split(s, e3 + 1, q, v.pre);
    if v.build.len() > 0 {
        let end = s.len() as int;
        assert(end == q + 1 + jb.len());
        assert(forall|j: int| q + 1 <= j < end ==> s[j] == jb[j - q - 1]);
        lemma_region_is_join(s, q + 1, end, v.build, jb);
        lemma_metadata_split(s, q + 1, end, v.build);
    }
    let parsed = spec_parse_version(s);
    assert(parsed is Some);
    let w = parsed->Some_0;
    assert(w.pre == v.pre);
    if v.build.len() == 0 {
        assert(w.build =~= v.build);
    } else {
        assert(w.build == v.build);
    }
    assert(w =~= v);
}

/// A printed metadata region holds exactly the joined identifier list.
proof fn lemma_region_is_join(s: Seq<char>, from: int, to: int, parts: Seq<Seq<char>>, jp: Seq<char>)
    requires
        0 <= from <= to <= s.len(),
        jp == join_idents(parts, '.'),
        to - from == jp.len(),
        forall|j: int| from <= j < to ==> s[j] == jp[j - from],
    ensures
        s.subrange(from, to) == jp,
{
    assert(s.subrange(from, to) =~= jp);
}

/// Splitting a printed metadata region yields the identifier list back.
proof fn lemma_metadata_split(s: Seq<char>, from: int, to: int, parts: Seq<Seq<char>>)
    requires
        0 <= from <= to <= s.len(),
        s.subrange(from, to) == join_idents(parts, '.'),
        parts.len() >= 1,
        forall|i: int| 0 <= i < parts.len() ==> valid_build_ident(#[trigger] parts[i]),
    ensures
        split_parts(s, from, to) == parts,
{
    assert(forall|i: int| 0 <= i < parts.len() ==> (#[trigger] parts[i]).len() > 0);
    assert(!is_ident_char('.'));
    assert forall|i: int, j: int|
        0 <= i < parts.len() && 0 <= j < parts[i].len() implies parts[i][j] != '.' by {
        assert(is_ident_char(parts[i][j]));
    }
    lemma_split_join(s, from, to, parts);
}

/// Splitting a range on `.` and joining the components back yields the
/// range itself; the split is never empty.
pub proof fn lemma_join_split(s: Seq<char>, from: int, to: int)
    requires
        0 <= from <= to <= s.len(),
    ensures
        join_idents(split_parts(s, from, to), '.') == s.subrange(from, to),
        split_parts(s, from, to).len() >= 1,
    decreases to - from,
{
    lemma_find_sep(s, from, to);
    let i = find_sep(s, from, to);
    if i >= to {
        assert(split_parts(s, from, to) == seq![s.subrange(from, to)]);
    } else {
        lemma_join_split(s, i + 1, to);
        let parts = seq![s.subrange(from, i)] + split_parts(s, i + 1, to);
        assert(split_parts(s, from, to) == parts);
        assert(parts.len() >= 2);
        assert(parts[0] == s.subrange(from, i));
        assert(parts.drop_first() =~= split_parts(s, i + 1, to));
        assert(s[i] == '.');
        assert(s.subrange(from, to) =~= s.subrange(from, i) + seq!['.'] + s.subrange(i + 1, to));
    }
}

/// Law: a string the parser accepts is exactly the canonical string of the
/// release it yields — re-stringifying any parsed version, with or without
/// metadata, gives the identical string back — and that release is
/// well-formed.
pub proof fn lemma_parse_prints_back(s: Seq<char>, v: VersionView)
    requires
        spec_parse_version(s) == Some(v),
    ensures
        valid_version(v),
        version_chars(v) == s,
{
    let e1 = digit_run_end(s, 0);
    lemma_digit_run_end(s, 0);
    let maj = s.subrange(0, e1);
    assert(e1 < s.len() && s[e1] == '.' && core_num_ok(maj));
    let b2 = e1 + 1;
    let e2 = digit_run_end(s, b2);
    lemma_digit_run_end(s, b2);
    let min = s.subrange(b2, e2);
    assert(e2 < s.len() && s[e2] == '.' && core_num_ok(min));
    let b3 = e2 + 1;
    let e3 = digit_run_end(s, b3);
    lemma_digit_run_end(s, b3);
    let pat = s.subrange(b3, e3);
    assert(core_num_ok(pat));
    assert(v.major == digits_val(maj) && v.minor == digits_val(min) && v.patch == digits_val(pat));
    lemma_canon_digits_repr(maj);
    lemma_canon_digits_repr(min);
    lemma_canon_digits_repr(pat);
    let core = s.subrange(0, e3);
    assert(dec_repr(v.major) + seq!['.'] + dec_repr(v.minor) + seq!['.'] + dec_repr(v.patch)
        =~= core);
    if e3 == s.len() {
        assert(version_chars(v) =~= s);
    } else if s[e3] == '-' {
        let p = find_from(s, e3 + 1, '+');
        lemma_find_from(s, e3 + 1, '+');
        lemma_join_split(s, e3 + 1, p);
        assert(v.pre == split_parts(s, e3 + 1, p));
        assert(v.pre.len() >= 1);
        assert(join_idents(v.pre, '.') == s.subrange(e3 + 1, p));
        if p == s.len() {
            assert(v.build.len() == 0);
            assert(version_chars(v) =~= core + seq!['-'] + s.subrange(e3 + 1, p));
            assert(core + seq!['-'] + s.subrange(e3 + 1, p) =~= s);
        } else {
            assert(s[p] == '+');
            lemma_join_split(s, p + 1, s.len() as int);
            assert(v.build == split_parts(s, p + 1, s.len() as int));
            assert(v.build.len() >= 1);
            assert(join_idents(v.build, '.') == s.subrange(p + 1, s.len() as int));
            assert(version_chars(v) =~= core + seq!['-'] + s.subrange(e3 + 1, p) + seq!['+']
                + s.subrange(p + 1, s.len() as int));
            assert(core + seq!['-'] + s.subrange(e3 + 1, p) + seq!['+'] + s.subrange(
                p + 1,
                s.len() as int,
            ) =~= s);
        }
    } else {
        assert(s[e3] == '+');
        lemma_join_split(s, e3 + 1, s.len() as int);
        assert(v.build == split_parts(s, e3 + 1, s.len() as int));
        assert(v.build.len() >= 1);
        assert(v.pre.len() == 0);
        assert(join_idents(v.build, '.') == s.subrange(e3 + 1, s.len() as int));
        assert(version_chars(v) =~= core + seq!['+'] + s.subrange(e3 + 1, s.len() as int));
        assert(core + seq!['+'] + s.subrange(e3 + 1, s.len() as int) =~= s);
    }
}




/// The first occurrence of `c` at or after `from` sits exactly at `k` when
/// `[from, k)` avoids it and `k` holds it or is the end.
proof fn lemma_find_from_at(s: Seq<char>, from: int, k: int, c: char)
    requires
        0 <= from <= k <= s.len(),
        forall|j: int| from <= j < k ==> s[j] != c,
        k < s.len() ==> s[k] == c,
    ensures
        find_from(s, from, c) == k,
    decreases k - from,
{
    if from < k {
        lemma_find_from_at(s, from + 1, k, c);
    }
}

/// The first `.` in `[from, to)` sits exactly at `k` when `[from, k)` avoids
/// it and `k` holds it or is the range's end.
proof fn lemma_find_sep_at(s: Seq<char>, from: int, to: int, k: int)
    requires
        0 <= from <= k <= to <= s.len(),
        forall|j: int| from <= j < k ==> s[j] != '.',
        k < to ==> s[k] == '.',
    ensures
        find_sep(s, from, to) == k,
    decreases k - from,
{
    if from < k {
        lemma_find_sep_at(s, from + 1, to, k);
    }
}

/// Every character of a join of valid identifiers is an identifier character
/// or the separating dot.
proof fn lemma_join_ident_chars(parts: Seq<Seq<char>>)
    requires
        forall|i: int| 0 <= i < parts.len() ==> valid_build_ident(#[trigger] parts[i]),
    ensures
        forall|j: int|
            0 <= j < join_idents(parts, '.').len() ==> is_ident_char(
                #[trigger] join_idents(parts, '.')[j],
            ) || join_idents(parts, '.')[j] == '.',
    decreases parts.len(),
{
    if parts.len() <= 1 {
    } else {
        assert(forall|i: int|
            0 <= i < parts.drop_first().len() ==> valid_build_ident(
                #[trigger] parts.drop_first()[i],
            ));
        lemma_join_ident_chars(parts.drop_first());
        let whole = join_idents(parts, '.');
        let head = parts[0];
        let rest = join_idents(parts.drop_first(), '.');
        assert(whole == head + seq!['.'] + rest);
        assert(valid_build_ident(head));
        assert forall|j: int| 0 <= j < whole.len() implies is_ident_char(#[trigger] whole[j])
            || whole[j] == '.' by {
            if j < head.len() {
                assert(whole[j] == head[j]);
            } else if j == head.len() {
                assert(whole[j] == '.');
            } else {
                assert(whole[j] == rest[j - head.len() - 1]);
            }
        }
    }
}

/// Splitting a region that holds a join of dot-free, nonempty components
/// yields those components back.
proof fn lemma_split_join(s: Seq<char>, from: int, to: int, parts: Seq<Seq<char>>)
    requires
        0 <= from <= to <= s.len(),
        s.subrange(from, to) == join_idents(parts, '.'),
        parts.len() >= 1,
        forall|i: int| 0 <= i < parts.len() ==> (#[trigger] parts[i]).len() > 0,
        forall|i: int, j: int| 0 <= i < parts.len() && 0 <= j < parts[i].len() ==> parts[i][j] != '.',
    ensures
        split_parts(s, from, to) == parts,
    decreases parts.len(),
{
    let region = s.subrange(from, to);
    let head = parts[0];
    if parts.len() == 1 {
        assert(region == head);
        assert(forall|j: int| from <= j < to ==> s[j] == region[j - from]);
        assert(forall|j: int| from <= j < to ==> s[j] != '.');
        lemma_find_sep_at(s, from, to, to);
        assert(split_parts(s, from, to) == seq![s.subrange(from, to)]);
        assert(split_parts(s, from, to) =~= parts);
    } else {
        let rest = parts.drop_first();
        let rest_join = join_idents(rest, '.');
        assert(region == head + seq!['.'] + rest_join);
        let k = from + head.len() as int;
        assert(to - from == region.len());
        assert(k < to);
        assert forall|j: int| from <= j < k implies s[j] != '.' by {
            let idx = j - from;
            assert(region[idx] == s[j]);
            assert(region[idx] == head[idx]);
        }
        assert(region[k - from] == s[k]);
        assert(region[k - from] == '.');
        lemma_find_sep_at(s, from, to, k);
        assert(split_parts(s, from, to) == seq![s.subrange(from, k)] + split_parts(s, k + 1, to));
        assert(s.subrange(from, k) =~= head);
        assert(s.subrange(k + 1, to).len() == rest_join.len());
        assert forall|idx: int| 0 <= idx < rest_join.len() implies s.subrange(k + 1, to)[idx]
            == rest_join[idx] by {
            assert(s.subrange(k + 1, to)[idx] == s[k + 1 + idx]);
            assert(region[k + 1 + idx - from] == s[k + 1 + idx]);
            assert(region[head.len() + 1 + idx] == rest_join[idx]);
        }
        assert(s.subrange(k + 1, to) =~= rest_join);
        assert(forall|i: int| 0 <= i < rest.len() ==> (#[trigger] rest[i]).len() > 0);
        assert(forall|i: int, j: int|
            0 <= i < rest.len() && 0 <= j < rest[i].len() ==> rest[i][j] != '.') by {
            assert(forall|i: int| 0 <= i < rest.len() ==> #[trigger] rest[i] == parts[i + 1]);
        }
        lemma_split_join(s, k + 1, to, rest);
        assert(split_parts(s, from, to) =~= parts);
    }
}

} // verus!
