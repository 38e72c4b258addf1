use vstd::prelude::*;
use vstd::string::{StrSliceExecFns, StringExecFns};
use vstd::utf8::{decode_utf8, valid_utf8};

verus! {

/// Lexicographic order on character sequences, comparing code points; for
/// UTF-8 strings this is the order of `str`'s `Ord`.
pub open spec fn str_le(a: Seq<char>, b: Seq<char>) -> bool
    decreases a.len(),
{
    if a.len() == 0 {
        true
    } else if b.len() == 0 {
        false
    } else if (a[0] as u32) < (b[0] as u32) {
        true
    } else if (a[0] as u32) > (b[0] as u32) {
        false
    } else {
        str_le(a.drop_first(), b.drop_first())
    }
}

proof fn lemma_str_le_skip(a: Seq<char>, b: Seq<char>, i: int)
    requires
        0 <= i < a.len(),
        i < b.len(),
        a[i] == b[i],
    ensures
        str_le(a.skip(i), b.skip(i)) == str_le(a.skip(i + 1), b.skip(i + 1)),
{
    assert(a.skip(i).drop_first() =~= a.skip(i + 1));
    assert(b.skip(i).drop_first() =~= b.skip(i + 1));
    assert((a[i] as u32) == (b[i] as u32));
}

/// Whether `a` comes before `b` or equals it.
pub fn text_le(a: &str, b: &str) -> (r: bool)
    ensures
        r == str_le(a@, b@),
{
    let la = a.unicode_len();
    let lb = b.unicode_len();
    let mut i: usize = 0;
    assert(a@.skip(0) =~= a@);
    assert(b@.skip(0) =~= b@);
    while i < la && i < lb
        invariant
            la == a@.len(),
            lb == b@.len(),
            i <= la,
            i <= lb,
            str_le(a@, b@) == str_le(a@.skip(i as int), b@.skip(i as int)),
        decreases la - i,
    {
        let ca = a.get_char(i);
        let cb = b.get_char(i);
        if (ca as u32) < (cb as u32) {
            assert(a@.skip(i as int)[0] == ca);
            return true;
        }
        if (ca as u32) > (cb as u32) {
            assert(a@.skip(i as int)[0] == ca);
            return false;
        }
        assert(ca == cb);
        proof {
            lemma_str_le_skip(a@, b@, i as int);
        }
        i += 1;
    }
    i == la
}

/// An owned copy of `s`.
pub fn from_text(s: &str) -> (r: String)
    ensures
        r@ == s@,
{
    String::from_str(s)
}

/// `a` followed by `b`.
pub fn join_text(a: &str, b: &str) -> (r: String)
    ensures
        r@ == a@ + b@,
{
    let mut r = String::from_str(a);
    r.append(b);
    r
}

/// `a`, then `b`, then `c`.
pub fn join3(a: &str, b: &str, c: &str) -> (r: String)
    ensures
        r@ == a@ + b@ + c@,
{
    let mut r = join_text(a, b);
    r.append(c);
    r
}

/// Relies on String::push: appends one character.
#[verifier::external_body]
pub(crate) fn push_char(s: &mut String, c: char)
    ensures
        final(s)@ == old(s)@.push(c),
{
    s.push(c)
}

/// Relies on String::pop: removes and returns the last character, if any.
#[verifier::external_body]
pub(crate) fn pop_char(s: &mut String) -> (r: Option<char>)
    ensures
        old(s)@.len() == 0 ==> r is None && final(s)@ == old(s)@,
        old(s)@.len() > 0 ==> r == Some(old(s)@.last()) && final(s)@ == old(s)@.drop_last(),
{
    s.pop()
}

/// The words of a text, as `str::split_whitespace` gives them.
pub uninterp spec fn whitespace_words(s: Seq<char>) -> Seq<Seq<char>>;

/// Relies on str::split_whitespace: the non-empty runs of non-whitespace
/// characters, in order; an empty text has none.
#[verifier::external_body]
pub(crate) fn split_words(s: &str) -> (r: Vec<String>)
    ensures
        r@.map_values(|w: String| w@) == whitespace_words(s@),
        s@.len() == 0 ==> r@.len() == 0,
{
    s.split_whitespace().map(|w| w.to_string()).collect()
}

/// The text that `String::from_utf8_lossy` makes of some bytes.
pub uninterp spec fn lossy_text(b: Seq<u8>) -> Seq<char>;

/// Relies on String::from_utf8_lossy: decodes bytes, replacing invalid
/// sequences; valid UTF-8 decodes to the text it encodes, and no bytes give
/// the empty text.
#[verifier::external_body]
pub(crate) fn decode_lossy(b: &Vec<u8>) -> (r: String)
    ensures
        r@ == lossy_text(b@),
        valid_utf8(b@) ==> r@ == decode_utf8(b@),
        b@.len() == 0 ==> r@.len() == 0,
{
    String::from_utf8_lossy(b).to_string()
}

/// What the output viewer shows of a captured run.
pub open spec fn combined_output(stdout: Seq<char>, stderr: Seq<char>) -> Seq<char> {
    if stderr.len() == 0 {
        stdout
    } else if stdout.len() == 0 {
        stderr
    } else {
        "STDOUT:\n"@ + stdout + "\n\nSTDERR:\n"@ + stderr
    }
}

/// Combines standard output and standard error: one of them when the other
/// is empty, both under headings otherwise.
pub fn combine_output(stdout: &str, stderr: &str) -> (r: String)
    ensures
        r@ == combined_output(stdout@, stderr@),
{
    if stderr.unicode_len() == 0 {
        from_text(stdout)
    } else if stdout.unicode_len() == 0 {
        from_text(stderr)
    } else {
        let mut r = from_text("STDOUT:\n");
        r.append(stdout);
        r.append("\n\nSTDERR:\n");
        r.append(stderr);
        r
    }
}

/// A line as it fits in `width` columns: unchanged when it fits, else its
/// first `width - 3` characters followed by `...`.
pub open spec fn clipped(line: Seq<char>, width: nat) -> Seq<char> {
    if line.len() <= width {
        line
    } else if width >= 3 {
        line.take(width - 3) + "..."@
    } else {
        "..."@
    }
}

pub fn clip_line(line: &str, width: usize) -> (r: String)
    ensures
        r@ == clipped(line@, width as nat),
{
    let n = line.unicode_len();
    if n <= width {
        from_text(line)
    } else {
        let keep: usize = if width >= 3 { width - 3 } else { 0 };
        let mut r = from_text(line.substring_char(0, keep));
        r.append("...");
        proof {
            if width < 3 {
                assert(line@.subrange(0, 0) + "..."@ =~= "..."@);
            }
        }
        r
    }
}

/// `n` spaces.
pub open spec fn spaces(n: nat) -> Seq<char> {
    Seq::new(n, |i: int| ' ')
}

/// A text padded with spaces on the right to at least `width` characters.
pub open spec fn padded(s: Seq<char>, width: nat) -> Seq<char> {
    if s.len() >= width {
        s
    } else {
        s + spaces((width - s.len()) as nat)
    }
}

pub fn pad_to(s: &str, width: usize) -> (r: String)
    ensures
        r@ == padded(s@, width as nat),
{
    let mut r = from_text(s);
    let mut n = s.unicode_len();
    while n < width
        invariant
            n >= s@.len(),
            n == s@.len() || n <= width,
            r@ == s@ + spaces((n - s@.len()) as nat),
        decreases width - n,
    {
        push_char(&mut r, ' ');
        assert(r@ =~= s@ + spaces((n + 1 - s@.len()) as nat));
        n += 1;
    }
    proof {
        if s@.len() >= width {
            assert(r@ =~= s@);
        }
    }
    r
}

} // verus!
