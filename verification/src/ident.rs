//! Identifier handling: snake-case column names, camel-case table-name
//! segments, and the length-bounded mangling of definition names.

use vstd::prelude::*;

verus! {

/// The identifier-length ceiling of the target schema dialect: mangled
/// definition names never exceed this many characters.
pub const TYPENAME_LENGTH_LIMIT_PSQL: usize = 63;

pub open spec fn is_ascii_lowercase_char(c: char) -> bool {
    97 <= c as u32 <= 122
}

pub open spec fn is_ascii_uppercase_char(c: char) -> bool {
    65 <= c as u32 <= 90
}

pub open spec fn is_ascii_whitespace_char(c: char) -> bool {
    c == ' ' || c == '\t' || c == '\n' || c == '\r'
}

/// The ASCII lowercase form of a character; other characters are unchanged.
pub open spec fn spec_lower_char(c: char) -> char {
    if is_ascii_uppercase_char(c) {
        ((c as u32 + 32) as u32) as char
    } else {
        c
    }
}

/// The ASCII uppercase form of a character; other characters are unchanged.
pub open spec fn spec_upper_char(c: char) -> char {
    if is_ascii_lowercase_char(c) {
        ((c as u32 - 32) as u32) as char
    } else {
        c
    }
}

fn lower_char(c: char) -> (r: char)
    ensures
        r == spec_lower_char(c),
{
    let u = c as u32;
    if 65 <= u && u <= 90 {
        proof {
            vstd::utf8::char_is_scalar(c);
        }
        ((u + 32) as u8) as char
    } else {
        c
    }
}

fn upper_char(c: char) -> (r: char)
    ensures
        r == spec_upper_char(c),
{
    let u = c as u32;
    if 97 <= u && u <= 122 {
        proof {
            vstd::utf8::char_is_scalar(c);
        }
        ((u - 32) as u8) as char
    } else {
        c
    }
}

fn is_lower(c: char) -> (r: bool)
    ensures
        r == is_ascii_lowercase_char(c),
{
    let u = c as u32;
    97 <= u && u <= 122
}

fn is_ws(c: char) -> (r: bool)
    ensures
        r == is_ascii_whitespace_char(c),
{
    c == ' ' || c == '\t' || c == '\n' || c == '\r'
}

/// Relies on `String::push`: appends exactly the given character to the
/// string.
#[verifier::external_body]
pub(crate) fn push_char(s: &mut String, c: char)
    ensures
        final(s)@ == old(s)@.push(c),
{
    s.push(c);
}

/// The suffix of the snake-case rendering of `s` that the characters from
/// position `i` on contribute: an uppercase character is lowered and, when
/// it follows a lowercase character, preceded by an underscore; a dash
/// becomes an underscore; everything else is kept.
pub open spec fn spec_module_name_from(s: Seq<char>, i: int) -> Seq<char>
    decreases s.len() - i,
{
    if i < 0 || i >= s.len() {
        Seq::empty()
    } else {
        let c = s[i];
        let head = if is_ascii_uppercase_char(c) {
            if i > 0 && is_ascii_lowercase_char(s[i - 1]) {
                seq!['_', spec_lower_char(c)]
            } else {
                seq![spec_lower_char(c)]
            }
        } else if c == '-' {
            seq!['_']
        } else {
            seq![c]
        };
        head + spec_module_name_from(s, i + 1)
    }
}

/// The snake-case rendering of a model name, used for column names.
pub open spec fn spec_module_name(s: Seq<char>) -> Seq<char> {
    spec_module_name_from(s, 0)
}

/// Renders a model name in snake case: uppercase characters are lowered,
/// with an underscore inserted after a lowercase character, and dashes
/// become underscores.
pub fn rust_module_name(name: &str) -> (r: String)
    ensures
        r@ == spec_module_name(name@),
{
    let n = name.unicode_len();
    let mut result = String::new();
    let mut i: usize = 0;
    while i < n
        invariant
            n == name@.len(),
            i <= n,
            result@ + spec_module_name_from(name@, i as int) == spec_module_name(name@),
        decreases n - i,
    {
        let c = name.get_char(i);
        let u = c as u32;
        if 65 <= u && u <= 90 {
            if i > 0 {
                let p = name.get_char(i - 1);
                if is_lower(p) {
                    push_char(&mut result, '_');
                }
            }
            push_char(&mut result, lower_char(c));
        } else if c == '-' {
            push_char(&mut result, '_');
        } else {
            push_char(&mut result, c);
        }
        i = i + 1;
    }
    result
}

/// The suffix of the camel-case rendering of `s` from position `i` on;
/// `cap` says whether the next kept character starts a segment and is
/// uppercased. Underscores and dashes separate segments and are dropped.
pub open spec fn spec_variant_name_from(s: Seq<char>, i: int, cap: bool) -> Seq<char>
    decreases s.len() - i,
{
    if i < 0 || i >= s.len() {
        Seq::empty()
    } else {
        let c = s[i];
        if c == '_' || c == '-' {
            spec_variant_name_from(s, i + 1, true)
        } else if cap {
            seq![spec_upper_char(c)] + spec_variant_name_from(s, i + 1, false)
        } else {
            seq![c] + spec_variant_name_from(s, i + 1, false)
        }
    }
}

/// The camel-case rendering of a model name, used for synthesized table
/// name segments.
pub open spec fn spec_variant_name(s: Seq<char>) -> Seq<char> {
    spec_variant_name_from(s, 0, true)
}

/// Renders a model name in camel case: each underscore- or dash-separated
/// segment keeps its characters, with the first one uppercased.
pub fn rust_variant_name(name: &str) -> (r: String)
    ensures
        r@ == spec_variant_name(name@),
{
    let n = name.unicode_len();
    let mut result = String::new();
    let mut cap = true;
    let mut i: usize = 0;
    while i < n
        invariant
            n == name@.len(),
            i <= n,
            result@ + spec_variant_name_from(name@, i as int, cap) == spec_variant_name(name@),
        decreases n - i,
    {
        let c = name.get_char(i);
        if c == '_' || c == '-' {
            cap = true;
        } else if cap {
            push_char(&mut result, upper_char(c));
            cap = false;
        } else {
            push_char(&mut result, c);
            cap = false;
        }
        i = i + 1;
    }
    result
}

pub open spec fn drop_leading_ws(s: Seq<char>) -> Seq<char>
    decreases s.len(),
{
    if s.len() > 0 && is_ascii_whitespace_char(s[0]) {
        drop_leading_ws(s.drop_first())
    } else {
        s
    }
}

pub open spec fn drop_trailing_ws(s: Seq<char>) -> Seq<char>
    decreases s.len(),
{
    if s.len() > 0 && is_ascii_whitespace_char(s.last()) {
        drop_trailing_ws(s.drop_last())
    } else {
        s
    }
}

/// The sequence with leading and trailing ASCII whitespace removed.
pub open spec fn spec_trim(s: Seq<char>) -> Seq<char> {
    drop_trailing_ws(drop_leading_ws(s))
}

/// Whether a name is, ignoring ASCII case, the reserved surrogate-key
/// column name.
pub open spec fn matches_reserved_key(s: Seq<char>) -> bool {
    &&& s.len() == 2
    &&& (s[0] == 'i' || s[0] == 'I')
    &&& (s[1] == 'd' || s[1] == 'D')
}

/// Whether the trimmed name collides, ignoring ASCII case, with the
/// reserved surrogate-key column name.
pub fn collides_with_reserved_key(name: &str) -> (r: bool)
    ensures
        r == matches_reserved_key(spec_trim(name@)),
{
    let n = name.unicode_len();
    proof {
        assert(name@.subrange(0, n as int) =~= name@);
    }
    let mut start: usize = 0;
    while start < n && is_ws(name.get_char(start))
        invariant
            n == name@.len(),
            start <= n,
            drop_leading_ws(name@.subrange(start as int, n as int)) == drop_leading_ws(name@),
        decreases n - start,
    {
        proof {
            assert(name@.subrange(start as int, n as int).drop_first() =~= name@.subrange(
                start as int + 1,
                n as int,
            ));
        }
        start = start + 1;
    }
    proof {
        assert(drop_leading_ws(name@) =~= name@.subrange(start as int, n as int));
    }
    let mut end: usize = n;
    while end > start && is_ws(name.get_char(end - 1))
        invariant
            n == name@.len(),
            start <= end <= n,
            drop_trailing_ws(name@.subrange(start as int, end as int)) == spec_trim(name@),
        decreases end,
    {
        proof {
            assert(name@.subrange(start as int, end as int).drop_last() =~= name@.subrange(
                start as int,
                end as int - 1,
            ));
        }
        end = end - 1;
    }
    proof {
        assert(spec_trim(name@) =~= name@.subrange(start as int, end as int));
    }
    if end - start != 2 {
        return false;
    }
    let c0 = name.get_char(start);
    let c1 = name.get_char(start + 1);
    (c0 == 'i' || c0 == 'I') && (c1 == 'd' || c1 == 'D')
}

/// The schema-side column name of a model field name: its snake-case
/// rendering, with a trailing marker appended when the trimmed name
/// collides, ignoring ASCII case, with the reserved surrogate-key name.
pub open spec fn spec_column_name_of(s: Seq<char>) -> Seq<char> {
    if matches_reserved_key(spec_trim(s)) {
        spec_module_name(s).push('_')
    } else {
        spec_module_name(s)
    }
}

/// The scan that shortens an over-long definition name: from position `i`
/// with the retained characters `acc`, lowercase characters are dropped;
/// after each retained character, if the untouched remainder now fits the
/// ceiling it is copied over whole, and if the retained part has reached
/// the ceiling the scan stops.
pub open spec fn spec_mangle_from(s: Seq<char>, i: int, acc: Seq<char>) -> Seq<char>
    decreases s.len() - i,
{
    if i < 0 || i >= s.len() {
        acc
    } else if is_ascii_lowercase_char(s[i]) {
        spec_mangle_from(s, i + 1, acc)
    } else {
        let acc2 = acc.push(s[i]);
        if s.len() - i - 1 + acc2.len() <= TYPENAME_LENGTH_LIMIT_PSQL {
            acc2 + s.subrange(i + 1, s.len() as int)
        } else if acc2.len() >= TYPENAME_LENGTH_LIMIT_PSQL {
            acc2
        } else {
            spec_mangle_from(s, i + 1, acc2)
        }
    }
}

/// The mangled form of a definition name: names within the ceiling pass
/// through unchanged; longer names are shortened by the scan above.
pub open spec fn spec_definition_name(s: Seq<char>) -> Seq<char> {
    if s.len() > TYPENAME_LENGTH_LIMIT_PSQL {
        spec_mangle_from(s, 0, Seq::empty())
    } else {
        s
    }
}

/// Shortens a definition name to the identifier ceiling; see
/// [`spec_definition_name`] for the exact scan.
pub fn mangle_definition_name(name: &str) -> (r: String)
    ensures
        r@ == spec_definition_name(name@),
{
    let n = name.unicode_len();
    if n <= TYPENAME_LENGTH_LIMIT_PSQL {
        return name.to_owned();
    }
    let mut result = String::new();
    let mut result_len: usize = 0;
    let mut i: usize = 0;
    while i < n
        invariant
            n == name@.len(),
            i <= n,
            n > TYPENAME_LENGTH_LIMIT_PSQL,
            result@.len() == result_len,
            result_len < TYPENAME_LENGTH_LIMIT_PSQL,
            spec_mangle_from(name@, i as int, result@) == spec_definition_name(name@),
        decreases n - i,
    {
        let c = name.get_char(i);
        if !is_lower(c) {
            push_char(&mut result, c);
            result_len = result_len + 1;
            let remaining = n - i - 1;
            if remaining <= TYPENAME_LENGTH_LIMIT_PSQL - result_len {
                let rest = name.substring_char(i + 1, n);
                result.append(rest);
                proof {
                    assert(name@.subrange(i as int + 1, n as int) == rest@);
                }
                return result;
            } else if result_len >= TYPENAME_LENGTH_LIMIT_PSQL {
                return result;
            }
        }
        i = i + 1;
    }
    result
}

} // verus!
