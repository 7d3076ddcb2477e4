use vstd::prelude::*;
use vstd::string::StrSliceExecFns;

verus! {

/// A character that common filesystems refuse in file or directory names.
pub open spec fn is_unsafe_char(c: char) -> bool {
    c == '/' || c == '\\' || c == ':' || c == '*' || c == '?' || c == '"'
        || c == '<' || c == '>' || c == '|'
}

/// What sanitizing a name means: every unsafe character becomes an
/// underscore, every other character and the overall length are kept.
pub open spec fn sanitize_spec(s: Seq<char>) -> Seq<char> {
    Seq::new(s.len(), |i: int| if is_unsafe_char(s[i]) { '_' } else { s[i] })
}

/// Relies on String::push: appends the given character to the end of the string.
#[verifier::external_body]
pub(crate) fn push_char(s: &mut String, c: char)
    ensures
        final(s)@ == old(s)@.push(c),
{
    s.push(c);
}

/// Replace filesystem-unsafe characters in a book name by underscores,
/// keeping every other character and the overall length.
pub fn sanitize_filename(name: &str) -> (r: String)
    ensures
        r@ == sanitize_spec(name@),
{
    let n: usize = name.unicode_len();
    let mut out = String::new();
    let mut i: usize = 0;
    while i < n
        invariant
            i <= n,
            n == name@.len(),
            out@ =~= sanitize_spec(name@).take(i as int),
        decreases n - i,
    {
        let c = name.get_char(i);
        let mapped: char = if c == '/' || c == '\\' || c == ':' || c == '*' || c == '?'
            || c == '"' || c == '<' || c == '>' || c == '|' {
            '_'
        } else {
            c
        };
        push_char(&mut out, mapped);
        i = i + 1;
    }
    proof {
        assert(out@ =~= sanitize_spec(name@));
    }
    out
}

/// The decimal digit characters, one per value below ten.
pub open spec fn digit_char_spec(d: nat) -> char {
    if d == 0 {
        '0'
    } else if d == 1 {
        '1'
    } else if d == 2 {
        '2'
    } else if d == 3 {
        '3'
    } else if d == 4 {
        '4'
    } else if d == 5 {
        '5'
    } else if d == 6 {
        '6'
    } else if d == 7 {
        '7'
    } else if d == 8 {
        '8'
    } else {
        '9'
    }
}

/// The ordinary decimal rendering of a number, most significant digit first,
/// with no leading zero except for zero itself.
pub open spec fn dec_rep(n: nat) -> Seq<char>
    decreases n,
{
    if n < 10 {
        seq![digit_char_spec(n)]
    } else {
        dec_rep(n / 10).push(digit_char_spec(n % 10))
    }
}

/// The decimal rendering zero-padded on the left to at least two digits.
pub open spec fn pad2_rep(n: nat) -> Seq<char> {
    if n < 10 {
        seq!['0'] + dec_rep(n)
    } else {
        dec_rep(n)
    }
}

fn digit_char(d: u64) -> (c: char)
    requires
        d < 10,
    ensures
        c == digit_char_spec(d as nat),
{
    if d == 0 {
        '0'
    } else if d == 1 {
        '1'
    } else if d == 2 {
        '2'
    } else if d == 3 {
        '3'
    } else if d == 4 {
        '4'
    } else if d == 5 {
        '5'
    } else if d == 6 {
        '6'
    } else if d == 7 {
        '7'
    } else if d == 8 {
        '8'
    } else {
        '9'
    }
}

/// Append the decimal rendering of `n` to `s`.
pub(crate) fn push_decimal(s: &mut String, n: u64)
    ensures
        final(s)@ == old(s)@ + dec_rep(n as nat),
    decreases n,
{
    if n >= 10 {
        push_decimal(s, n / 10);
    }
    let d = digit_char(n % 10);
    push_char(s, d);
    proof {
        assert(final(s)@ =~= old(s)@ + dec_rep(n as nat));
    }
}

/// Append the decimal rendering of `n`, zero-padded to at least two digits.
fn push_decimal_pad2(s: &mut String, n: u32)
    ensures
        final(s)@ == old(s)@ + pad2_rep(n as nat),
{
    if n < 10 {
        push_char(s, '0');
    }
    push_decimal(s, n as u64);
    proof {
        assert(final(s)@ =~= old(s)@ + pad2_rep(n as nat));
    }
}

/// The file name of one chapter inside its book directory.
pub open spec fn chapter_file_spec(chapter: nat) -> Seq<char> {
    "chapter-"@ + pad2_rep(chapter) + ".mp3"@
}

/// The path of one chapter relative to the output root: the sanitized book
/// name as the directory, then the fixed chapter file name.
pub open spec fn rel_path_spec(book_name: Seq<char>, chapter: nat) -> Seq<char> {
    sanitize_spec(book_name) + seq!['/'] + chapter_file_spec(chapter)
}

/// The request target for one chapter: the base address, then the book id and
/// the chapter number as slash-joined segments, then the media extension.
pub open spec fn url_spec(base: Seq<char>, book_id: nat, chapter: nat) -> Seq<char> {
    base + seq!['/'] + dec_rep(book_id) + seq!['/'] + dec_rep(chapter) + ".mp3"@
}

/// The file name of one chapter, e.g. two-digit zero-padded.
pub fn chapter_file_name(chapter: u32) -> (r: String)
    ensures
        r@ == chapter_file_spec(chapter as nat),
{
    let mut s = String::from_str("chapter-");
    push_decimal_pad2(&mut s, chapter);
    s.append(".mp3");
    proof {
        assert(s@ =~= chapter_file_spec(chapter as nat));
    }
    s
}

/// The path of one chapter relative to the output root. A pure function of
/// the book name and the chapter number alone: computing it twice for the
/// same pair yields the same path.
pub fn chapter_rel_path(book_name: &str, chapter: u32) -> (r: String)
    ensures
        r@ == rel_path_spec(book_name@, chapter as nat),
{
    let mut s = sanitize_filename(book_name);
    push_char(&mut s, '/');
    let file = chapter_file_name(chapter);
    s.append(file.as_str());
    proof {
        assert(s@ =~= rel_path_spec(book_name@, chapter as nat));
    }
    s
}

/// The request target for one chapter under the given base address.
pub fn chapter_url(base_url: &str, book_id: u32, chapter: u32) -> (r: String)
    ensures
        r@ == url_spec(base_url@, book_id as nat, chapter as nat),
{
    let mut s = String::from_str(base_url);
    push_char(&mut s, '/');
    push_decimal(&mut s, book_id as u64);
    push_char(&mut s, '/');
    push_decimal(&mut s, chapter as u64);
    s.append(".mp3");
    proof {
        assert(s@ =~= url_spec(base_url@, book_id as nat, chapter as nat));
    }
    s
}

/// No filesystem-unsafe character survives sanitizing, and the length is kept.
pub proof fn lemma_sanitize_safe(s: Seq<char>)
    ensures
        sanitize_spec(s).len() == s.len(),
        forall|i: int| 0 <= i < s.len() ==> !is_unsafe_char(#[trigger] sanitize_spec(s)[i]),
{
}

} // verus!
