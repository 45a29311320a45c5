//! Quoted variable names.

use vstd::prelude::*;
use vstd::string::StrSliceExecFns;
use vstd::utf8::is_ascii_chars;
use crate::fault::VariableFault;
use crate::number::is_digit;

verus! {

pub open spec fn is_letter(c: char) -> bool {
    'a' <= c <= 'z' || 'A' <= c <= 'Z'
}

/// The characters a name is made of: letters, digits and the underscore.
pub open spec fn is_name_char(c: char) -> bool {
    is_letter(c) || is_digit(c) || c == '_'
}

/// The characters a name may start with: letters and the underscore.
pub open spec fn is_name_start(c: char) -> bool {
    is_letter(c) || c == '_'
}

pub open spec fn all_name_chars(s: Seq<char>) -> bool {
    forall|i: int| 0 <= i < s.len() ==> is_name_char(#[trigger] s[i])
}

/// The lower-case form of an ASCII capital; any other character is itself.
pub open spec fn to_lower(c: char) -> char {
    if 'A' <= c <= 'Z' {
        ((c as u8) + 32) as char
    } else {
        c
    }
}

pub open spec fn lowercase(s: Seq<char>) -> Seq<char> {
    Seq::new(s.len(), |i: int| to_lower(s[i]))
}

/// What stands between the first and the last character.
pub open spec fn unquoted(s: Seq<char>) -> Seq<char> {
    s.subrange(1, s.len() - 1)
}

/// The variable that a quoted token names, in lower case, or the first
/// rule that the token breaks.
pub open spec fn variable_of(s: Seq<char>) -> Result<Seq<char>, VariableFault> {
    if s.len() < 3 {
        Err(VariableFault::TooShort)
    } else if !is_ascii_chars(s) {
        Err(VariableFault::NotAscii)
    } else if s.first() != '\'' || s.last() != '\'' {
        Err(VariableFault::BadQuotes)
    } else if !is_name_start(unquoted(s)[0]) {
        Err(VariableFault::BadFirstCharacter)
    } else if !all_name_chars(unquoted(s)) {
        Err(VariableFault::BadBodyCharacter)
    } else {
        Ok(lowercase(unquoted(s)))
    }
}

/// Whether an ASCII code is that of a letter, a digit or the underscore.
fn names(code: u8) -> (b: bool)
    requires
        code < 128,
    ensures
        b == is_name_char(code as char),
{
    (97 <= code && code <= 122) || (65 <= code && code <= 90) || (48 <= code && code <= 57)
        || code == 95
}

/// Whether an ASCII code is that of a letter or the underscore.
fn starts_name(code: u8) -> (b: bool)
    requires
        code < 128,
    ensures
        b == is_name_start(code as char),
{
    (97 <= code && code <= 122) || (65 <= code && code <= 90) || code == 95
}

/// The lower-case form of an ASCII character.
fn lower(code: u8) -> (c: char)
    requires
        code < 128,
    ensures
        c == to_lower(code as char),
{
    if 65 <= code && code <= 90 {
        (code + 32) as char
    } else {
        code as char
    }
}

/// Checks a quoted variable name and returns the name, without its quotes
/// and in lower case.
pub fn valid_variable(variable: String) -> (res: Result<String, VariableFault>)
    ensures
        match variable_of(variable@) {
            Ok(name) => res is Ok && res->Ok_0@ == name,
            Err(fault) => res == Err::<String, VariableFault>(fault),
        },
{
    let text = variable.as_str();
    let n = text.unicode_len();
    if n < 3 {
        return Err(VariableFault::TooShort);
    }
    if !text.is_ascii() {
        return Err(VariableFault::NotAscii);
    }
    proof {
        vstd::utf8::is_ascii_chars_nat_bound(text@);
    }
    if text.get_ascii(0) != 39 || text.get_ascii(n - 1) != 39 {
        return Err(VariableFault::BadQuotes);
    }
    let ghost body = unquoted(text@);
    if !starts_name(text.get_ascii(1)) {
        assert(body[0] == text@[1]);
        return Err(VariableFault::BadFirstCharacter);
    }
    assert(body[0] == text@[1]);
    let mut name = String::new();
    let mut i: usize = 1;
    while i < n - 1
        invariant
            n == text@.len(),
            n >= 3,
            1 <= i <= n - 1,
            is_ascii_chars(text@),
            forall|k: int| 0 <= k < text@.len() ==> (text@[k] as nat) < 128,
            text@ == variable@,
            text@.first() == '\'',
            text@.last() == '\'',
            body == unquoted(text@),
            is_name_start(body[0]),
            forall|k: int| 0 <= k < i - 1 ==> is_name_char(#[trigger] body[k]),
            name@ == lowercase(body.take(i - 1)),
        decreases n - i,
    {
        let code = text.get_ascii(i);
        assert(body[i - 1] == text@[i as int]);
        assert(code as char == text@[i as int]);
        if !names(code) {
            assert(!is_name_char(body[i - 1]));
            return Err(VariableFault::BadBodyCharacter);
        }
        name.push(lower(code));
        assert(name@ =~= lowercase(body.take(i as int)));
        i = i + 1;
    }
    assert(body.take(n - 2) =~= body);
    Ok(name)
}

/// A checked name is the token without its quotes, character for
/// character in lower case: it is not empty, and it holds lower-case
/// letters, digits and underscores only.
pub proof fn law_variable_is_lower_case_name(s: Seq<char>)
    ensures
        variable_of(s) matches Ok(name) ==> {
            &&& name.len() == s.len() - 2
            &&& name.len() >= 1
            &&& forall|i: int|
                0 <= i < name.len() ==> is_name_char(#[trigger] name[i]) && !('A' <= name[i]
                    <= 'Z')
            &&& lowercase(name) == name
        },
{
    if variable_of(s) is Ok {
        let body = unquoted(s);
        let name = lowercase(body);
        assert forall|i: int| 0 <= i < name.len() implies is_name_char(#[trigger] name[i]) && !('A'
            <= name[i] <= 'Z') by {
            assert(is_name_char(body[i]));
        }
        assert(lowercase(name) =~= name);
    }
}

/// Characters with the same lower-case form are alike in all that the
/// check looks at.
proof fn lemma_same_lower_case(x: char, y: char)
    requires
        to_lower(x) == to_lower(y),
    ensures
        (x <= '\u{7f}') == (y <= '\u{7f}'),
        (x == '\'') == (y == '\''),
        is_name_start(x) == is_name_start(y),
        is_name_char(x) == is_name_char(y),
{
}

/// Names are read without regard to case: two tokens that differ only in
/// the case of their letters name the same variable, or break the same
/// rule.
pub proof fn law_variable_ignores_case(a: Seq<char>, b: Seq<char>)
    requires
        a.len() == b.len(),
        forall|i: int| 0 <= i < a.len() ==> to_lower(#[trigger] a[i]) == to_lower(b[i]),
    ensures
        variable_of(a) == variable_of(b),
{
    assert forall|i: int| 0 <= i < a.len() implies {
        &&& (#[trigger] a[i] <= '\u{7f}') == (b[i] <= '\u{7f}')
        &&& (a[i] == '\'') == (b[i] == '\'')
        &&& is_name_start(a[i]) == is_name_start(b[i])
        &&& is_name_char(a[i]) == is_name_char(b[i])
    } by {
        lemma_same_lower_case(a[i], b[i]);
    }
    if a.len() >= 3 {
        assert(is_ascii_chars(a) == is_ascii_chars(b)) by {
            if is_ascii_chars(a) {
                assert forall|i: int| 0 <= i < b.len() implies '\0' <= #[trigger] b[i]
                    <= '\u{7f}' by {
                    assert(a[i] <= '\u{7f}');
                }
            }
            if is_ascii_chars(b) {
                assert forall|i: int| 0 <= i < a.len() implies '\0' <= #[trigger] a[i]
                    <= '\u{7f}' by {
                    assert(b[i] <= '\u{7f}');
                }
            }
        }
        let x = unquoted(a);
        let y = unquoted(b);
        assert forall|i: int| 0 <= i < x.len() implies is_name_char(#[trigger] x[i])
            == is_name_char(y[i]) && to_lower(x[i]) == to_lower(y[i]) by {
            assert(x[i] == a[i + 1] && y[i] == b[i + 1]);
        }
        assert(all_name_chars(x) == all_name_chars(y)) by {
            if all_name_chars(x) {
                assert forall|i: int| 0 <= i < y.len() implies is_name_char(#[trigger] y[i]) by {
                    assert(is_name_char(x[i]));
                }
            }
            if all_name_chars(y) {
                assert forall|i: int| 0 <= i < x.len() implies is_name_char(#[trigger] x[i]) by {
                    assert(is_name_char(y[i]));
                }
            }
        }
        assert(x[0] == a[1] && y[0] == b[1]);
        assert(lowercase(x) =~= lowercase(y));
    }
}

} // verus!
