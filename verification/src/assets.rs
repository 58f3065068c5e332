//! What a viewer is served besides the document: the shell page and the
//! script, which are templates with one placeholder each, and the address
//! under which the preview is reached.

use vstd::prelude::*;

verus! {

/// Stands for the document's name in the template of the shell page.
pub const NAME_PLACEHOLDER: &'static str = "{file}";

/// Stands for the bound port in the template of the script.
pub const PORT_PLACEHOLDER: &'static str = "{port}";

/// What the address of the preview begins with; the port follows.
pub const SITE_PREFIX: &'static str = "http://localhost:";

/// The character of the decimal digit `digit`.
pub open spec fn digit_char(digit: nat) -> char {
    if digit == 0 {
        '0'
    } else if digit == 1 {
        '1'
    } else if digit == 2 {
        '2'
    } else if digit == 3 {
        '3'
    } else if digit == 4 {
        '4'
    } else if digit == 5 {
        '5'
    } else if digit == 6 {
        '6'
    } else if digit == 7 {
        '7'
    } else if digit == 8 {
        '8'
    } else {
        '9'
    }
}

/// The number `n` written in decimal, without leading zeros.
pub open spec fn decimal(n: nat) -> Seq<char>
    decreases n,
{
    if n < 10 {
        seq![digit_char(n)]
    } else {
        decimal(n / 10).push(digit_char(n % 10))
    }
}

/// Whether `text` begins with `placeholder`.
pub open spec fn starts_with(text: Seq<char>, placeholder: Seq<char>) -> bool {
    placeholder.len() <= text.len() && text.subrange(0, placeholder.len() as int) == placeholder
}

/// The template `text` with `value` in the place of each occurrence of
/// `placeholder`. Occurrences are found from left to right and do not
/// overlap; an empty placeholder occurs nowhere.
pub open spec fn filled(text: Seq<char>, placeholder: Seq<char>, value: Seq<char>) -> Seq<char>
    decreases text.len(),
{
    if placeholder.len() == 0 || text.len() == 0 {
        text
    } else if starts_with(text, placeholder) {
        value + filled(
            text.subrange(placeholder.len() as int, text.len() as int),
            placeholder,
            value,
        )
    } else {
        seq![text[0]] + filled(text.subrange(1, text.len() as int), placeholder, value)
    }
}

/// Calls `String::push`, which appends one character to the end of a string.
#[verifier::external_body]
fn push_char(text: &mut String, c: char)
    ensures
        final(text)@ == old(text)@.push(c),
{
    text.push(c);
}

/// The characters of `text`, in order.
fn chars_of(text: &str) -> (chars: Vec<char>)
    ensures
        chars@ == text@,
{
    let mut chars: Vec<char> = Vec::new();
    let mut rest = text.chars();
    for c in it: rest
        invariant
            chars@ == it.seq().take(it.index() as int),
    {
        chars.push(c);
    }
    chars
}

/// Whether `placeholder` stands in `text` at the position `at`.
fn occurs_at(text: &Vec<char>, at: usize, placeholder: &Vec<char>) -> (found: bool)
    requires
        at <= text.len(),
    ensures
        found == starts_with(text@.subrange(at as int, text.len() as int), placeholder@),
{
    let rest = text.len() - at;
    if placeholder.len() > rest {
        return false;
    }
    let ghost tail = text@.subrange(at as int, text.len() as int);
    let mut k: usize = 0;
    while k < placeholder.len()
        invariant
            k <= placeholder.len(),
            placeholder.len() <= rest,
            rest == text.len() - at,
            tail == text@.subrange(at as int, text.len() as int),
            forall|j: int| 0 <= j < k ==> tail[j] == placeholder[j],
        decreases placeholder.len() - k,
    {
        if text[at + k] != placeholder[k] {
            assert(tail.subrange(0, placeholder.len() as int)[k as int] != placeholder[k as int]);
            return false;
        }
        k += 1;
    }
    assert(tail.subrange(0, placeholder.len() as int) =~= placeholder@);
    true
}

/// Fills a template: writes `value` in the place of each occurrence of
/// `placeholder` in `template`, from left to right, and copies the rest.
pub fn fill_placeholder(template: &str, placeholder: &str, value: &str) -> (text: String)
    ensures
        text@ == filled(template@, placeholder@, value@),
{
    let source = chars_of(template);
    let mark = chars_of(placeholder);
    let mut text = String::new();
    let n = source.len();
    let mut at: usize = 0;
    assert(source@.subrange(0, n as int) =~= source@);
    while at < n
        invariant
            at <= n,
            n == source.len(),
            source@ == template@,
            mark@ == placeholder@,
            text@ + filled(source@.subrange(at as int, n as int), mark@, value@) == filled(
                source@,
                mark@,
                value@,
            ),
        decreases n - at,
    {
        let ghost rest = source@.subrange(at as int, n as int);
        if mark.len() > 0 && occurs_at(&source, at, &mark) {
            assert(rest.subrange(mark.len() as int, rest.len() as int) =~= source@.subrange(
                at + mark.len(),
                n as int,
            ));
            assert(text@ + (value@ + filled(
                source@.subrange(at + mark.len(), n as int),
                mark@,
                value@,
            )) =~= (text@ + value@) + filled(
                source@.subrange(at + mark.len(), n as int),
                mark@,
                value@,
            ));
            text.append(value);
            at += mark.len();
        } else {
            assert(rest.subrange(1, rest.len() as int) =~= source@.subrange(at + 1, n as int));
            assert(rest[0] == source[at as int]);
            assert(text@ + (seq![rest[0]] + filled(
                source@.subrange(at + 1, n as int),
                mark@,
                value@,
            )) =~= text@.push(source[at as int]) + filled(
                source@.subrange(at + 1, n as int),
                mark@,
                value@,
            ));
            push_char(&mut text, source[at]);
            at += 1;
        }
    }
    assert(source@.subrange(n as int, n as int) =~= Seq::<char>::empty());
    assert(text@ + Seq::<char>::empty() =~= text@);
    text
}

/// Appends the decimal digits of `n` to `text`.
fn push_decimal(text: &mut String, n: u16)
    ensures
        final(text)@ == old(text)@ + decimal(n as nat),
    decreases n,
{
    if n >= 10 {
        push_decimal(text, n / 10);
    }
    let digit: u16 = n % 10;
    let c = if digit == 0 {
        '0'
    } else if digit == 1 {
        '1'
    } else if digit == 2 {
        '2'
    } else if digit == 3 {
        '3'
    } else if digit == 4 {
        '4'
    } else if digit == 5 {
        '5'
    } else if digit == 6 {
        '6'
    } else if digit == 7 {
        '7'
    } else if digit == 8 {
        '8'
    } else {
        '9'
    };
    push_char(text, c);
    assert(final(text)@ =~= old(text)@ + decimal(n as nat));
}

/// The shell page: its template with the document's name filled in.
pub fn viewer_page(template: &str, document_name: &str) -> (page: String)
    ensures
        page@ == filled(template@, NAME_PLACEHOLDER@, document_name@),
{
    fill_placeholder(template, NAME_PLACEHOLDER, document_name)
}

/// The viewer's script: its template with the bound port filled in, so that
/// the script knows where to subscribe.
pub fn viewer_script(template: &str, port: u16) -> (script: String)
    ensures
        script@ == filled(template@, PORT_PLACEHOLDER@, decimal(port as nat)),
{
    let mut digits = String::new();
    push_decimal(&mut digits, port);
    assert(digits@ =~= decimal(port as nat));
    fill_placeholder(template, PORT_PLACEHOLDER, digits.as_str())
}

/// The address under which the preview bound to `port` is reached.
pub fn site_url(port: u16) -> (url: String)
    ensures
        url@ == SITE_PREFIX@ + decimal(port as nat),
{
    let mut url = String::from_str(SITE_PREFIX);
    push_decimal(&mut url, port);
    url
}

} // verus!
