//! The parameter parser: turns operator directives of the form
//! `CHANNEL:PARAM:VALUE` and scalar global options into store writes,
//! failing fast on the first invalid input.

use vstd::prelude::*;
use vstd::string::*;

use crate::state::CcModel;
use crate::state::CcStateManager;
use crate::state::CcType;
use crate::state::ChannelCcState;
use crate::state::model_set_channel;

verus! {

/// Why a directive or an option value was rejected.
#[derive(Clone, Copy, Debug, PartialEq, Eq, Structural)]
pub enum ConfigError {
    /// Not exactly three `:`-separated fields.
    MalformedDirective,
    /// The channel field is not an integer in [0, 15].
    InvalidChannel,
    /// The parameter field names none of the seven known parameters.
    UnknownParameter,
    /// The value field is not acceptable for the named parameter.
    InvalidValue,
}

/// One successfully parsed directive: a store write waiting to happen.
#[derive(Clone, Copy, Debug, PartialEq, Eq)]
pub struct Directive {
    pub channel: u8,
    pub cc_type: CcType,
    pub value: u8,
}

// ---------------------------------------------------------------------
// Decimal literals
// ---------------------------------------------------------------------

pub open spec fn is_digit(c: char) -> bool {
    48 <= c as u32 && c as u32 <= 57
}

pub open spec fn digit_val(c: char) -> int {
    c as u32 - 48
}

pub open spec fn all_digits(s: Seq<char>) -> bool {
    forall|i: int| 0 <= i < s.len() ==> is_digit(#[trigger] s[i])
}

/// The value of a digit string read in base 10.
pub open spec fn dec_val(s: Seq<char>) -> int
    decreases s.len(),
{
    if s.len() == 0 {
        0
    } else {
        10 * dec_val(s.drop_last()) + digit_val(s.last())
    }
}

proof fn lemma_dec_val_nonneg(s: Seq<char>)
    requires
        all_digits(s),
    ensures
        dec_val(s) >= 0,
    decreases s.len(),
{
    if s.len() > 0 {
        assert(all_digits(s.drop_last()));
        lemma_dec_val_nonneg(s.drop_last());
    }
}

/// Whether `s` starts with an accepted sign character.
pub open spec fn has_sign(s: Seq<char>, allow_minus: bool) -> bool {
    s.len() > 0 && (s[0] == '+' || (allow_minus && s[0] == '-'))
}

/// `s` with an accepted leading sign stripped.
pub open spec fn num_body(s: Seq<char>, allow_minus: bool) -> Seq<char> {
    if has_sign(s, allow_minus) {
        s.drop_first()
    } else {
        s
    }
}

/// An optional sign followed by at least one decimal digit.
pub open spec fn is_number_literal(s: Seq<char>, allow_minus: bool) -> bool {
    num_body(s, allow_minus).len() > 0 && all_digits(num_body(s, allow_minus))
}

/// The signed value of a number literal.
pub open spec fn number_literal_val(s: Seq<char>, allow_minus: bool) -> int {
    if s.len() > 0 && s[0] == '-' {
        -dec_val(num_body(s, allow_minus))
    } else {
        dec_val(num_body(s, allow_minus))
    }
}

/// `n` cut off just above the largest value a field can name exactly.
pub open spec fn clamp256(n: int) -> int {
    if n <= 255 {
        n
    } else {
        256
    }
}

/// Reads the decimal digits of `v` from `from` to the end; values above
/// 255 all come back as 256, which is enough to decide every range check
/// the directive grammar makes.
fn parse_digits_clamped(v: &Vec<char>, from: usize) -> (r: Option<u32>)
    requires
        from <= v@.len(),
    ensures
        r matches Some(x) ==> {
            &&& v@.len() > from
            &&& all_digits(v@.subrange(from as int, v@.len() as int))
            &&& x == clamp256(dec_val(v@.subrange(from as int, v@.len() as int)))
        },
        r is None ==> (v@.len() == from || !all_digits(
            v@.subrange(from as int, v@.len() as int),
        )),
{
    let n = v.len();
    if from == n {
        return None;
    }
    let mut acc: u32 = 0;
    let mut i: usize = from;
    while i < n
        invariant
            from <= i <= n,
            n == v@.len(),
            all_digits(v@.subrange(from as int, i as int)),
            acc == clamp256(dec_val(v@.subrange(from as int, i as int))),
            acc <= 256,
        decreases n - i,
    {
        let d = v[i] as u32;
        if d < 48 || d > 57 {
            proof {
                let body = v@.subrange(from as int, n as int);
                assert(body[i - from] == v@[i as int]);
            }
            return None;
        }
        let dv = d - 48;
        let t = acc * 10 + dv;
        let next = if t <= 255 {
            t
        } else {
            256
        };
        proof {
            let pre = v@.subrange(from as int, i as int);
            let cur = v@.subrange(from as int, i as int + 1);
            assert(cur.drop_last() =~= pre);
            assert(cur.last() == v@[i as int]);
            assert(all_digits(cur));
            lemma_dec_val_nonneg(pre);
            assert(dec_val(cur) == 10 * dec_val(pre) + digit_val(v@[i as int]));
            assert(next == clamp256(dec_val(cur)));
        }
        acc = next;
        i = i + 1;
    }
    proof {
        assert(v@.subrange(from as int, n as int) =~= v@.subrange(from as int, i as int));
    }
    Some(acc)
}

// ---------------------------------------------------------------------
// Field grammars
// ---------------------------------------------------------------------

/// The channel a directive's first field names: an integer literal in
/// [0, 15], sign accepted.
pub open spec fn channel_of(s: Seq<char>) -> Option<u8> {
    if is_number_literal(s, true) && 0 <= number_literal_val(s, true) <= 15 {
        Some(number_literal_val(s, true) as u8)
    } else {
        None
    }
}

/// The value a non-sustain directive's third field names: an unsigned
/// integer literal in [0, 127].
pub open spec fn plain_value_of(s: Seq<char>) -> Option<u8> {
    if is_number_literal(s, false) && 0 <= number_literal_val(s, false) <= 127 {
        Some(number_literal_val(s, false) as u8)
    } else {
        None
    }
}

pub open spec fn on_chars() -> Seq<char> {
    seq!['o', 'n']
}

pub open spec fn off_chars() -> Seq<char> {
    seq!['o', 'f', 'f']
}

/// The stored sustain value a directive's third field names: the tokens
/// `on`/`off` (case-insensitively) mean 127/0; an unsigned integer literal
/// up to 255 is coerced to 127 from 64 upward and kept as a sub-threshold
/// level below that.
pub open spec fn sustain_value_of(s: Seq<char>) -> Option<u8> {
    if lower_seq(s) == on_chars() {
        Some(127)
    } else if lower_seq(s) == off_chars() {
        Some(0)
    } else if is_number_literal(s, false) && 0 <= number_literal_val(s, false) <= 255 {
        if number_literal_val(s, false) >= 64 {
            Some(127)
        } else {
            Some(number_literal_val(s, false) as u8)
        }
    } else {
        None
    }
}

/// The stored value a directive's third field names for `cc_type`.
pub open spec fn value_of(cc_type: CcType, s: Seq<char>) -> Option<u8> {
    if cc_type is Sustain {
        sustain_value_of(s)
    } else {
        plain_value_of(s)
    }
}

// ---------------------------------------------------------------------
// ASCII lowercasing and parameter names
// ---------------------------------------------------------------------

pub open spec fn lower_char(c: char) -> char {
    match c {
        'A' => 'a',
        'B' => 'b',
        'C' => 'c',
        'D' => 'd',
        'E' => 'e',
        'F' => 'f',
        'G' => 'g',
        'H' => 'h',
        'I' => 'i',
        'J' => 'j',
        'K' => 'k',
        'L' => 'l',
        'M' => 'm',
        'N' => 'n',
        'O' => 'o',
        'P' => 'p',
        'Q' => 'q',
        'R' => 'r',
        'S' => 's',
        'T' => 't',
        'U' => 'u',
        'V' => 'v',
        'W' => 'w',
        'X' => 'x',
        'Y' => 'y',
        'Z' => 'z',
        _ => c,
    }
}

pub open spec fn lower_seq(s: Seq<char>) -> Seq<char> {
    s.map_values(|c: char| lower_char(c))
}

fn char_to_lower(c: char) -> (r: char)
    ensures
        r == lower_char(c),
{
    match c {
        'A' => 'a',
        'B' => 'b',
        'C' => 'c',
        'D' => 'd',
        'E' => 'e',
        'F' => 'f',
        'G' => 'g',
        'H' => 'h',
        'I' => 'i',
        'J' => 'j',
        'K' => 'k',
        'L' => 'l',
        'M' => 'm',
        'N' => 'n',
        'O' => 'o',
        'P' => 'p',
        'Q' => 'q',
        'R' => 'r',
        'S' => 's',
        'T' => 't',
        'U' => 'u',
        'V' => 'v',
        'W' => 'w',
        'X' => 'x',
        'Y' => 'y',
        'Z' => 'z',
        _ => c,
    }
}

fn lower_chars(v: &Vec<char>) -> (r: Vec<char>)
    ensures
        r@ == lower_seq(v@),
{
    let mut r: Vec<char> = Vec::new();
    let mut i: usize = 0;
    while i < v.len()
        invariant
            i <= v@.len(),
            r@.len() == i,
            forall|j: int| 0 <= j < i ==> #[trigger] r@[j] == lower_char(v@[j]),
        decreases v@.len() - i,
    {
        r.push(char_to_lower(v[i]));
        i = i + 1;
    }
    proof {
        assert(r@ =~= lower_seq(v@));
    }
    r
}

pub open spec fn volume_chars() -> Seq<char> {
    seq!['v', 'o', 'l', 'u', 'm', 'e']
}

pub open spec fn pan_chars() -> Seq<char> {
    seq!['p', 'a', 'n']
}

pub open spec fn reverb_chars() -> Seq<char> {
    seq!['r', 'e', 'v', 'e', 'r', 'b']
}

pub open spec fn chorus_chars() -> Seq<char> {
    seq!['c', 'h', 'o', 'r', 'u', 's']
}

pub open spec fn modulation_chars() -> Seq<char> {
    seq!['m', 'o', 'd', 'u', 'l', 'a', 't', 'i', 'o', 'n']
}

pub open spec fn expression_chars() -> Seq<char> {
    seq!['e', 'x', 'p', 'r', 'e', 's', 's', 'i', 'o', 'n']
}

pub open spec fn sustain_chars() -> Seq<char> {
    seq!['s', 'u', 's', 't', 'a', 'i', 'n']
}

/// The parameter a (lowercased) name designates.
pub open spec fn cc_type_of_name(s: Seq<char>) -> Option<CcType> {
    if s == volume_chars() {
        Some(CcType::Volume)
    } else if s == pan_chars() {
        Some(CcType::Pan)
    } else if s == reverb_chars() {
        Some(CcType::Reverb)
    } else if s == chorus_chars() {
        Some(CcType::Chorus)
    } else if s == modulation_chars() {
        Some(CcType::Modulation)
    } else if s == expression_chars() {
        Some(CcType::Expression)
    } else if s == sustain_chars() {
        Some(CcType::Sustain)
    } else {
        None
    }
}

fn cc_type_from_chars(v: &Vec<char>) -> (r: Option<CcType>)
    ensures
        r == cc_type_of_name(v@),
{
    let n = v.len();
    if n == 6 && v[0] == 'v' && v[1] == 'o' && v[2] == 'l' && v[3] == 'u' && v[4] == 'm' && v[5]
        == 'e' {
        proof {
            assert(v@ =~= volume_chars());
        }
        Some(CcType::Volume)
    } else if n == 3 && v[0] == 'p' && v[1] == 'a' && v[2] == 'n' {
        proof {
            assert(v@ =~= pan_chars());
        }
        Some(CcType::Pan)
    } else if n == 6 && v[0] == 'r' && v[1] == 'e' && v[2] == 'v' && v[3] == 'e' && v[4] == 'r'
        && v[5] == 'b' {
        proof {
            assert(v@ =~= reverb_chars());
        }
        Some(CcType::Reverb)
    } else if n == 6 && v[0] == 'c' && v[1] == 'h' && v[2] == 'o' && v[3] == 'r' && v[4] == 'u'
        && v[5] == 's' {
        proof {
            assert(v@ =~= chorus_chars());
        }
        Some(CcType::Chorus)
    } else if n == 10 && v[0] == 'm' && v[1] == 'o' && v[2] == 'd' && v[3] == 'u' && v[4] == 'l'
        && v[5] == 'a' && v[6] == 't' && v[7] == 'i' && v[8] == 'o' && v[9] == 'n' {
        proof {
            assert(v@ =~= modulation_chars());
        }
        Some(CcType::Modulation)
    } else if n == 10 && v[0] == 'e' && v[1] == 'x' && v[2] == 'p' && v[3] == 'r' && v[4] == 'e'
        && v[5] == 's' && v[6] == 's' && v[7] == 'i' && v[8] == 'o' && v[9] == 'n' {
        proof {
            assert(v@ =~= expression_chars());
        }
        Some(CcType::Expression)
    } else if n == 7 && v[0] == 's' && v[1] == 'u' && v[2] == 's' && v[3] == 't' && v[4] == 'a'
        && v[5] == 'i' && v[6] == 'n' {
        proof {
            assert(v@ =~= sustain_chars());
        }
        Some(CcType::Sustain)
    } else {
        None
    }
}

// ---------------------------------------------------------------------
// Field parsers (executable)
// ---------------------------------------------------------------------

fn parse_channel_chars(v: &Vec<char>) -> (r: Option<u8>)
    ensures
        r == channel_of(v@),
        r matches Some(c) ==> c < 16,
{
    if v.len() == 0 {
        return None;
    }
    let c0 = v[0];
    let negative = c0 == '-';
    let start: usize = if c0 == '+' || c0 == '-' {
        1
    } else {
        0
    };
    proof {
        assert(num_body(v@, true) =~= v@.subrange(start as int, v@.len() as int));
    }
    match parse_digits_clamped(v, start) {
        None => None,
        Some(x) => {
            proof {
                lemma_dec_val_nonneg(num_body(v@, true));
            }
            if negative {
                if x == 0 {
                    Some(0)
                } else {
                    None
                }
            } else {
                if x <= 15 {
                    Some(x as u8)
                } else {
                    None
                }
            }
        },
    }
}

fn parse_plain_value_chars(v: &Vec<char>) -> (r: Option<u8>)
    ensures
        r == plain_value_of(v@),
        r matches Some(x) ==> x <= 127,
{
    if v.len() == 0 {
        return None;
    }
    let start: usize = if v[0] == '+' {
        1
    } else {
        0
    };
    proof {
        assert(num_body(v@, false) =~= v@.subrange(start as int, v@.len() as int));
    }
    match parse_digits_clamped(v, start) {
        None => None,
        Some(x) => {
            proof {
                lemma_dec_val_nonneg(num_body(v@, false));
            }
            if x <= 127 {
                Some(x as u8)
            } else {
                None
            }
        },
    }
}

fn parse_sustain_chars(v: &Vec<char>) -> (r: Option<u8>)
    ensures
        r == sustain_value_of(v@),
        r matches Some(x) ==> x <= 127,
{
    let lowered = lower_chars(v);
    if lowered.len() == 2 && lowered[0] == 'o' && lowered[1] == 'n' {
        proof {
            assert(lowered@ =~= on_chars());
        }
        return Some(127);
    }
    if lowered.len() == 3 && lowered[0] == 'o' && lowered[1] == 'f' && lowered[2] == 'f' {
        proof {
            assert(lowered@ =~= off_chars());
        }
        return Some(0);
    }
    if v.len() == 0 {
        return None;
    }
    let start: usize = if v[0] == '+' {
        1
    } else {
        0
    };
    proof {
        assert(num_body(v@, false) =~= v@.subrange(start as int, v@.len() as int));
    }
    match parse_digits_clamped(v, start) {
        None => None,
        Some(x) => {
            proof {
                lemma_dec_val_nonneg(num_body(v@, false));
            }
            if x > 255 {
                None
            } else if x >= 64 {
                Some(127)
            } else {
                Some(x as u8)
            }
        },
    }
}

// ---------------------------------------------------------------------
// Splitting a directive into fields
// ---------------------------------------------------------------------

/// `s` split on `:`, as `str::split` does it: one more field than there
/// are colons, empty fields kept.
pub open spec fn split_colons(s: Seq<char>) -> Seq<Seq<char>>
    decreases s.len(),
{
    if s.len() == 0 {
        seq![Seq::empty()]
    } else if s.last() == ':' {
        split_colons(s.drop_last()).push(Seq::empty())
    } else {
        let p = split_colons(s.drop_last());
        p.update(p.len() - 1, p.last().push(s.last()))
    }
}

pub open spec fn vec_views(vs: Seq<Vec<char>>) -> Seq<Seq<char>> {
    vs.map_values(|p: Vec<char>| p@)
}

fn split_chars(v: &Vec<char>) -> (parts: Vec<Vec<char>>)
    ensures
        vec_views(parts@) == split_colons(v@),
{
    let mut done: Vec<Vec<char>> = Vec::new();
    let mut cur: Vec<char> = Vec::new();
    let mut i: usize = 0;
    while i < v.len()
        invariant
            i <= v@.len(),
            vec_views(done@).push(cur@) == split_colons(v@.subrange(0, i as int)),
        decreases v@.len() - i,
    {
        let ghost pre = v@.subrange(0, i as int);
        let ghost cur_s = v@.subrange(0, i as int + 1);
        proof {
            assert(cur_s.drop_last() =~= pre);
            assert(cur_s.last() == v@[i as int]);
        }
        let c = v[i];
        if c == ':' {
            let ghost old_done = done@;
            let ghost old_cur_vec = cur;
            done.push(cur);
            cur = Vec::new();
            proof {
                assert(vec_views(old_done.push(old_cur_vec)) =~= vec_views(old_done).push(
                    old_cur_vec@,
                ));
                assert(vec_views(done@).push(cur@) =~= split_colons(cur_s));
            }
        } else {
            let ghost old_cur = cur@;
            cur.push(c);
            proof {
                let p = split_colons(pre);
                assert(p.last() == old_cur);
                assert(p.update(p.len() - 1, old_cur.push(v@[i as int])) =~= vec_views(
                    done@,
                ).push(cur@));
            }
        }
        i = i + 1;
    }
    proof {
        assert(v@.subrange(0, v@.len() as int) =~= v@);
    }
    done.push(cur);
    proof {
        assert(vec_views(done@) =~= split_colons(v@));
    }
    done
}

fn str_chars(s: &str) -> (v: Vec<char>)
    ensures
        v@ == s@,
{
    let n = s.unicode_len();
    let mut v: Vec<char> = Vec::new();
    let mut i: usize = 0;
    while i < n
        invariant
            i <= n,
            n == s@.len(),
            v@ == s@.subrange(0, i as int),
        decreases n - i,
    {
        let c = s.get_char(i);
        v.push(c);
        proof {
            assert(v@ =~= s@.subrange(0, i as int + 1));
        }
        i = i + 1;
    }
    proof {
        assert(s@.subrange(0, s@.len() as int) =~= s@);
    }
    v
}

// ---------------------------------------------------------------------
// The directive grammar
// ---------------------------------------------------------------------

/// What a directive string means: exactly three `:`-separated fields, a
/// channel in [0, 15], one of the seven parameter names matched
/// case-insensitively, and a value acceptable for that parameter. The
/// first failed step names the error.
pub open spec fn spec_parse_directive(s: Seq<char>) -> Result<Directive, ConfigError> {
    let parts = split_colons(s);
    if parts.len() != 3 {
        Err(ConfigError::MalformedDirective)
    } else {
        match channel_of(parts[0]) {
            None => Err(ConfigError::InvalidChannel),
            Some(channel) => match cc_type_of_name(lower_seq(parts[1])) {
                None => Err(ConfigError::UnknownParameter),
                Some(cc_type) => match value_of(cc_type, parts[2]) {
                    None => Err(ConfigError::InvalidValue),
                    Some(value) => Ok(Directive { channel, cc_type, value }),
                },
            },
        }
    }
}

/// Parse one `CHANNEL:PARAM:VALUE` directive.
pub fn parse_directive(s: &str) -> (r: Result<Directive, ConfigError>)
    ensures
        r == spec_parse_directive(s@),
        r matches Ok(d) ==> d.channel < 16 && d.value <= 127,
{
    let chars = str_chars(s);
    let parts = split_chars(&chars);
    if parts.len() != 3 {
        return Err(ConfigError::MalformedDirective);
    }
    proof {
        assert(parts@[0]@ == split_colons(s@)[0]);
        assert(parts@[1]@ == split_colons(s@)[1]);
        assert(parts@[2]@ == split_colons(s@)[2]);
    }
    let channel = match parse_channel_chars(&parts[0]) {
        None => {
            return Err(ConfigError::InvalidChannel);
        },
        Some(c) => c,
    };
    let lowered = lower_chars(&parts[1]);
    let cc_type = match cc_type_from_chars(&lowered) {
        None => {
            return Err(ConfigError::UnknownParameter);
        },
        Some(t) => t,
    };
    let value = match (match cc_type {
        CcType::Sustain => parse_sustain_chars(&parts[2]),
        _ => parse_plain_value_chars(&parts[2]),
    }) {
        None => {
            return Err(ConfigError::InvalidValue);
        },
        Some(x) => x,
    };
    Ok(Directive { channel, cc_type, value })
}

// ---------------------------------------------------------------------
// Applying directives to a store
// ---------------------------------------------------------------------

pub open spec fn seq_views(ss: Seq<String>) -> Seq<Seq<char>> {
    ss.map_values(|s: String| s@)
}

/// The store model after applying the first `n` directive strings in
/// order, or the error of the first one that fails to parse.
pub open spec fn model_apply_directives(m: CcModel, ds: Seq<Seq<char>>, n: int) -> Result<
    CcModel,
    ConfigError,
>
    decreases n,
{
    if n <= 0 {
        Ok(m)
    } else {
        match model_apply_directives(m, ds, n - 1) {
            Err(e) => Err(e),
            Ok(m2) => match spec_parse_directive(ds[n - 1]) {
                Err(e) => Err(e),
                Ok(d) => Ok(model_set_channel(m2, d.channel as int, d.cc_type, d.value)),
            },
        }
    }
}

proof fn lemma_apply_directives_err_stays(m: CcModel, ds: Seq<Seq<char>>, k: int, n: int)
    requires
        0 <= k <= n,
        model_apply_directives(m, ds, k) is Err,
    ensures
        model_apply_directives(m, ds, n) == model_apply_directives(m, ds, k),
    decreases n,
{
    if n > k {
        lemma_apply_directives_err_stays(m, ds, k, n - 1);
    }
}

/// Apply a list of `CHANNEL:PARAM:VALUE` directives to the store, in
/// order, stopping at the first invalid one: the fail-fast setup boundary.
/// On success the store is exactly the fold of all the writes; on failure
/// the returned error is the first directive's parse error and no caller
/// should use the store further.
pub fn apply_directives(store: &mut CcStateManager, directives: &Vec<String>) -> (r: Result<
    (),
    ConfigError,
>)
    requires
        old(store).wf(),
    ensures
        final(store).wf(),
        r matches Ok(u) ==> model_apply_directives(
            old(store).model(),
            seq_views(directives@),
            directives@.len() as int,
        ) == Ok::<CcModel, ConfigError>(final(store).model()),
        r matches Err(e) ==> model_apply_directives(
            old(store).model(),
            seq_views(directives@),
            directives@.len() as int,
        ) == Err::<CcModel, ConfigError>(e),
{
    let ghost m0 = store.model();
    let ghost ds = seq_views(directives@);
    let n = directives.len();
    let mut i: usize = 0;
    while i < n
        invariant
            store.wf(),
            n == directives@.len(),
            ds == seq_views(directives@),
            m0 == old(store).model(),
            i <= n,
            model_apply_directives(m0, ds, i as int) == Ok::<CcModel, ConfigError>(store.model()),
        decreases n - i,
    {
        let ghost m_prev = store.model();
        match parse_directive(directives[i].as_str()) {
            Err(e) => {
                proof {
                    assert(ds[i as int] == directives@[i as int]@);
                    assert(model_apply_directives(m0, ds, i as int + 1) == Err::<
                        CcModel,
                        ConfigError,
                    >(e));
                    lemma_apply_directives_err_stays(m0, ds, i as int + 1, n as int);
                }
                return Err(e);
            },
            Ok(d) => {
                store.set_channel_cc(d.channel, d.cc_type, d.value);
                proof {
                    assert(ds[i as int] == directives@[i as int]@);
                    assert(store.model() =~= model_set_channel(
                        m_prev,
                        d.channel as int,
                        d.cc_type,
                        d.value,
                    ));
                }
            },
        }
        i = i + 1;
    }
    Ok(())
}

// ---------------------------------------------------------------------
// Global options
// ---------------------------------------------------------------------

/// The operator's scalar global options, already range-checked: each value
/// in [0, 127], `None` where the option was absent.
#[derive(Clone, Copy, Debug, PartialEq, Eq)]
pub struct GlobalCcOptions {
    pub volume: Option<u8>,
    pub pan: Option<u8>,
    pub reverb: Option<u8>,
    pub chorus: Option<u8>,
    pub modulation: Option<u8>,
    pub expression: Option<u8>,
    pub sustain: Option<u8>,
}

pub open spec fn or_default(v: Option<u8>, d: u8) -> u8 {
    match v {
        Some(x) => x,
        None => d,
    }
}

impl GlobalCcOptions {
    pub open spec fn wf(self) -> bool {
        &&& (self.volume matches Some(v) ==> v <= 127)
        &&& (self.pan matches Some(v) ==> v <= 127)
        &&& (self.reverb matches Some(v) ==> v <= 127)
        &&& (self.chorus matches Some(v) ==> v <= 127)
        &&& (self.modulation matches Some(v) ==> v <= 127)
        &&& (self.expression matches Some(v) ==> v <= 127)
        &&& (self.sustain matches Some(v) ==> v <= 127)
    }

    /// No option given.
    pub fn none() -> (r: GlobalCcOptions)
        ensures
            r == (GlobalCcOptions {
                volume: None,
                pan: None,
                reverb: None,
                chorus: None,
                modulation: None,
                expression: None,
                sustain: None,
            }),
            r.wf(),
    {
        GlobalCcOptions {
            volume: None,
            pan: None,
            reverb: None,
            chorus: None,
            modulation: None,
            expression: None,
            sustain: None,
        }
    }

    /// The global-default state these options produce: the given value
    /// where one was given, else the built-in default — pan 64, reverb 0,
    /// chorus 0, volume 100, modulation 0, expression 127, sustain 0.
    pub open spec fn spec_effective_global(self) -> ChannelCcState {
        ChannelCcState {
            volume: Some(or_default(self.volume, 100)),
            pan: Some(or_default(self.pan, 64)),
            reverb: Some(or_default(self.reverb, 0)),
            chorus: Some(or_default(self.chorus, 0)),
            modulation: Some(or_default(self.modulation, 0)),
            expression: Some(or_default(self.expression, 127)),
            sustain: Some(or_default(self.sustain, 0)),
        }
    }
}

/// Write the seven global defaults: the option's value where one was
/// given, the built-in default where not. Every explicit option wins over
/// its default, and the per-channel entries are untouched.
pub fn apply_global_options(store: &mut CcStateManager, opts: &GlobalCcOptions)
    requires
        old(store).wf(),
        opts.wf(),
    ensures
        final(store).wf(),
        final(store).global_defaults == opts.spec_effective_global(),
        final(store).channels@ == old(store).channels@,
{
    let volume = match opts.volume {
        Some(v) => v,
        None => 100,
    };
    store.set_global_cc(CcType::Volume, volume);
    let pan = match opts.pan {
        Some(v) => v,
        None => 64,
    };
    store.set_global_cc(CcType::Pan, pan);
    let reverb = match opts.reverb {
        Some(v) => v,
        None => 0,
    };
    store.set_global_cc(CcType::Reverb, reverb);
    let chorus = match opts.chorus {
        Some(v) => v,
        None => 0,
    };
    store.set_global_cc(CcType::Chorus, chorus);
    let modulation = match opts.modulation {
        Some(v) => v,
        None => 0,
    };
    store.set_global_cc(CcType::Modulation, modulation);
    let expression = match opts.expression {
        Some(v) => v,
        None => 127,
    };
    store.set_global_cc(CcType::Expression, expression);
    let sustain = match opts.sustain {
        Some(v) => v,
        None => 0,
    };
    store.set_global_cc(CcType::Sustain, sustain);
}

/// Parse a global sustain option value, by the same rule as a directive's
/// sustain field.
pub fn parse_sustain_value(s: &str) -> (r: Result<u8, ConfigError>)
    ensures
        r matches Ok(v) ==> sustain_value_of(s@) == Some(v) && v <= 127,
        r matches Err(e) ==> sustain_value_of(s@) is None && e == ConfigError::InvalidValue,
{
    let chars = str_chars(s);
    match parse_sustain_chars(&chars) {
        Some(v) => Ok(v),
        None => Err(ConfigError::InvalidValue),
    }
}

} // verus!
