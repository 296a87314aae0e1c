//! Generated passwords.
//!
//! A password is made one character at a time. For each character a class is
//! drawn first, each of the four being as likely as the others, and then a
//! character of that class, each as likely as the others of its class.

use rand::Rng;
use vstd::prelude::*;
use vstd::string::*;
use crate::text::text_of;

verus! {

/// The number of character classes.
pub const CLASSES: usize = 4;

/// The length of a password that is generated where none is given.
pub const DEFAULT_LENGTH: usize = 20;

/// The characters of a class, in the order in which an index counts them:
/// capital letters, small letters, digits, and punctuation with the space.
pub open spec fn alphabet(class: int) -> Seq<char> {
    if class == 0 {
        "ABCDEFGHIJKLMNOPQRSTUVWXYZ"@
    } else if class == 1 {
        "abcdefghijklmnopqrstuvwxyz"@
    } else if class == 2 {
        "0123456789"@
    } else {
        "!\"#$%&'()*+,-./\\:;?@[]^_`{|}~ "@
    }
}

/// The character that the draw of `class` and then `index` stands for; the
/// draw must name a class and a place in it.
pub open spec fn drawn(class: int, index: int) -> Option<char> {
    if 0 <= class < CLASSES && 0 <= index < alphabet(class).len() {
        Some(alphabet(class)[index])
    } else {
        None
    }
}

/// A character that some draw stands for.
pub open spec fn is_password_char(c: char) -> bool {
    exists|class: int, index: int| #[trigger] drawn(class, index) == Some(c)
}

/// A character of the fourth class: punctuation, or the space.
pub open spec fn is_symbol(c: char) -> bool {
    ||| c == '!' || c == '"' || c == '#' || c == '$' || c == '%' || c == '&'
    ||| c == '\'' || c == '(' || c == ')' || c == '*' || c == '+' || c == ','
    ||| c == '-' || c == '.' || c == '/' || c == '\\' || c == ':' || c == ';'
    ||| c == '?' || c == '@' || c == '[' || c == ']' || c == '^' || c == '_'
    ||| c == '`' || c == '{' || c == '|' || c == '}' || c == '~' || c == ' '
}

/// A character of one of the four classes: a capital letter, a small
/// letter, a digit, or a symbol.
pub open spec fn in_classes(c: char) -> bool {
    ||| 'A' <= c <= 'Z'
    ||| 'a' <= c <= 'z'
    ||| '0' <= c <= '9'
    ||| is_symbol(c)
}

/// The four classes hold 26, 26, 10 and 30 characters.
pub proof fn lemma_alphabet_sizes()
    ensures
        alphabet(0).len() == 26,
        alphabet(1).len() == 26,
        alphabet(2).len() == 10,
        alphabet(3).len() == 30,
{
    reveal_strlit("ABCDEFGHIJKLMNOPQRSTUVWXYZ");
    reveal_strlit("abcdefghijklmnopqrstuvwxyz");
    reveal_strlit("0123456789");
    reveal_strlit("!\"#$%&'()*+,-./\\:;?@[]^_`{|}~ ");
}

proof fn lemma_capitals(index: int)
    requires
        0 <= index < 26,
    ensures
        alphabet(0)[index] == (('A' as int + index) as char),
{
    reveal_strlit("ABCDEFGHIJKLMNOPQRSTUVWXYZ");
    assert(index == 0 || index == 1 || index == 2 || index == 3 || index == 4 || index == 5
        || index == 6 || index == 7 || index == 8 || index == 9 || index == 10 || index == 11
        || index == 12 || index == 13 || index == 14 || index == 15 || index == 16 || index == 17
        || index == 18 || index == 19 || index == 20 || index == 21 || index == 22 || index == 23
        || index == 24 || index == 25);
}

proof fn lemma_smalls(index: int)
    requires
        0 <= index < 26,
    ensures
        alphabet(1)[index] == (('a' as int + index) as char),
{
    reveal_strlit("abcdefghijklmnopqrstuvwxyz");
    assert(index == 0 || index == 1 || index == 2 || index == 3 || index == 4 || index == 5
        || index == 6 || index == 7 || index == 8 || index == 9 || index == 10 || index == 11
        || index == 12 || index == 13 || index == 14 || index == 15 || index == 16 || index == 17
        || index == 18 || index == 19 || index == 20 || index == 21 || index == 22 || index == 23
        || index == 24 || index == 25);
}

proof fn lemma_digits(index: int)
    requires
        0 <= index < 10,
    ensures
        alphabet(2)[index] == (('0' as int + index) as char),
{
    reveal_strlit("0123456789");
    assert(index == 0 || index == 1 || index == 2 || index == 3 || index == 4 || index == 5
        || index == 6 || index == 7 || index == 8 || index == 9);
}

proof fn lemma_symbols(index: int)
    requires
        0 <= index < 30,
    ensures
        is_symbol(alphabet(3)[index]),
{
    reveal_strlit("!\"#$%&'()*+,-./\\:;?@[]^_`{|}~ ");
    assert(index == 0 || index == 1 || index == 2 || index == 3 || index == 4 || index == 5
        || index == 6 || index == 7 || index == 8 || index == 9 || index == 10 || index == 11
        || index == 12 || index == 13 || index == 14 || index == 15 || index == 16 || index == 17
        || index == 18 || index == 19 || index == 20 || index == 21 || index == 22 || index == 23
        || index == 24 || index == 25 || index == 26 || index == 27 || index == 28 || index == 29);
}

proof fn lemma_symbol_is_drawn(c: char)
    requires
        is_symbol(c),
    ensures
        exists|index: int| 0 <= index < 30 && alphabet(3)[index] == c,
{
    reveal_strlit("!\"#$%&'()*+,-./\\:;?@[]^_`{|}~ ");
    let text = alphabet(3);
    assert(text[0] == '!' && text[1] == '"' && text[2] == '#' && text[3] == '$' && text[4] == '%'
        && text[5] == '&' && text[6] == '\'' && text[7] == '(' && text[8] == ')' && text[9]
        == '*');
    assert(text[10] == '+' && text[11] == ',' && text[12] == '-' && text[13] == '.' && text[14]
        == '/' && text[15] == '\\' && text[16] == ':' && text[17] == ';' && text[18] == '?'
        && text[19] == '@');
    assert(text[20] == '[' && text[21] == ']' && text[22] == '^' && text[23] == '_' && text[24]
        == '`' && text[25] == '{' && text[26] == '|' && text[27] == '}' && text[28] == '~'
        && text[29] == ' ');
}

/// The characters that a draw can stand for are the characters of the four
/// classes: capital letters, small letters, digits and symbols, and no
/// others.
pub proof fn lemma_password_chars(c: char)
    ensures
        is_password_char(c) <==> in_classes(c),
{
    lemma_alphabet_sizes();
    if is_password_char(c) {
        let (class, index) = choose|class: int, index: int| #[trigger]
            drawn(class, index) == Some(c);
        if class == 0 {
            lemma_capitals(index);
        } else if class == 1 {
            lemma_smalls(index);
        } else if class == 2 {
            lemma_digits(index);
        } else {
            lemma_symbols(index);
        }
    }
    if 'A' <= c <= 'Z' {
        let index = c as int - 'A' as int;
        lemma_capitals(index);
        assert(drawn(0, index) == Some(c));
    } else if 'a' <= c <= 'z' {
        let index = c as int - 'a' as int;
        lemma_smalls(index);
        assert(drawn(1, index) == Some(c));
    } else if '0' <= c <= '9' {
        let index = c as int - '0' as int;
        lemma_digits(index);
        assert(drawn(2, index) == Some(c));
    } else if is_symbol(c) {
        lemma_symbol_is_drawn(c);
        let index = choose|index: int| 0 <= index < 30 && alphabet(3)[index] == c;
        assert(drawn(3, index) == Some(c));
    }
}

fn class_text(class: usize) -> (text: &'static str)
    requires
        class < CLASSES,
    ensures
        text@ == alphabet(class as int),
{
    if class == 0 {
        "ABCDEFGHIJKLMNOPQRSTUVWXYZ"
    } else if class == 1 {
        "abcdefghijklmnopqrstuvwxyz"
    } else if class == 2 {
        "0123456789"
    } else {
        "!\"#$%&'()*+,-./\\:;?@[]^_`{|}~ "
    }
}

/// The character that the draw of `class` and then `index` stands for, or
/// `None` where there is no such class or the class has no such place.
pub fn character(class: usize, index: usize) -> (c: Option<char>)
    ensures
        c == drawn(class as int, index as int),
{
    if class >= CLASSES {
        return None;
    }
    let text = class_text(class);
    if index < text.unicode_len() {
        Some(text.get_char(index))
    } else {
        None
    }
}

/// `rand::Rng::gen_range` on the generator of `rand::thread_rng`, for the
/// range from 0 up to and without `bound`: the number that comes back lies in
/// that range. An empty range makes it panic, so `bound` must not be 0. Which
/// number comes back is left open: it is drawn at random. The generator is
/// seeded by the system when a thread first asks for it, and panics if the
/// system has no seed to give.
#[verifier::external_body]
fn random_below(bound: usize) -> (n: usize)
    requires
        bound > 0,
    ensures
        n < bound,
{
    rand::thread_rng().gen_range(0..bound)
}

/// A password of `length` characters, each of them of one of the four
/// classes. Each character is drawn on its own: first its class, then its
/// place in the class.
pub fn generate_password(length: usize) -> (password: String)
    ensures
        password@.len() == length,
        forall|i: int| 0 <= i < length ==> is_password_char(#[trigger] password@[i]),
        forall|i: int| 0 <= i < length ==> in_classes(#[trigger] password@[i]),
{
    let mut chars: Vec<char> = Vec::new();
    let mut i: usize = 0;
    while i < length
        invariant
            i <= length,
            chars@.len() == i,
            forall|k: int| 0 <= k < i ==> is_password_char(#[trigger] chars@[k]),
        decreases length - i,
    {
        let class = random_below(CLASSES);
        let size = class_text(class).unicode_len();
        proof {
            lemma_alphabet_sizes();
        }
        let index = random_below(size);
        let c = character(class, index);
        assert(c == drawn(class as int, index as int) && c is Some);
        if let Some(c) = c {
            chars.push(c);
        }
        i += 1;
    }
    proof {
        assert forall|k: int| 0 <= k < length implies in_classes(#[trigger] chars@[k]) by {
            lemma_password_chars(chars@[k]);
        }
    }
    text_of(&chars)
}

} // verus!
