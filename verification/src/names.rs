use crate::random::random_below;
use vstd::prelude::*;
use vstd::string::StringExecFns;

verus! {

/// Calls `String::push`: appends `c` at the end of `s`.
#[verifier::external_body]
fn push_char(s: &mut String, c: char)
    ensures
        final(s)@ == old(s)@.push(c),
{
    s.push(c)
}

/// The lower-case form of an ASCII letter; other characters stay.
pub open spec fn ascii_lower(c: char) -> char {
    if 'A' <= c <= 'Z' {
        ((c as int) + 32) as char
    } else {
        c
    }
}

/// The upper-case form of an ASCII letter; other characters stay.
pub open spec fn ascii_upper(c: char) -> char {
    if 'a' <= c <= 'z' {
        ((c as int) - 32) as char
    } else {
        c
    }
}

/// Calls `char::to_ascii_lowercase`: 'A' to 'Z' become 'a' to 'z', other
/// characters stay.
#[verifier::external_body]
fn lower_char(c: char) -> (r: char)
    ensures
        r == ascii_lower(c),
{
    c.to_ascii_lowercase()
}

/// Calls `char::to_ascii_uppercase`: 'a' to 'z' become 'A' to 'Z', other
/// characters stay.
#[verifier::external_body]
fn upper_char(c: char) -> (r: char)
    ensures
        r == ascii_upper(c),
{
    c.to_ascii_uppercase()
}

/// Whether every character of `s` is ASCII.
pub open spec fn is_ascii_text(s: Seq<char>) -> bool {
    forall|i: int| 0 <= i < s.len() ==> (#[trigger] s[i] as int) < 128
}

/// The lines of a text joined back with newlines.
pub open spec fn join_lines(parts: Seq<Seq<char>>) -> Seq<char>
    decreases parts.len(),
{
    if parts.len() == 0 {
        Seq::empty()
    } else if parts.len() == 1 {
        parts[0]
    } else {
        join_lines(parts.drop_last()) + seq!['\n'] + parts.last()
    }
}

/// Whether no line holds a newline.
pub open spec fn no_newlines(parts: Seq<Seq<char>>) -> bool {
    forall|i: int, j: int| 0 <= i < parts.len() && 0 <= j < parts[i].len() ==> #[trigger] parts[i][j] != '\n'
}

/// The texts that the strings stand for.
pub open spec fn texts(v: Seq<String>) -> Seq<Seq<char>> {
    v.map_values(|s: String| s@)
}

/// Splits a text at every newline, as `str::split("\n")` does: the pieces,
/// joined back with newlines, give the text, and none holds a newline.
pub fn split_lines(contents: &str) -> (r: Vec<String>)
    ensures
        r@.len() >= 1,
        join_lines(texts(r@)) == contents@,
        no_newlines(texts(r@)),
{
    let n = contents.unicode_len();
    let mut parts: Vec<String> = Vec::new();
    let mut cur = String::from_str("");
    proof {
        reveal_strlit("");
    }
    let mut i: usize = 0;
    while i < n
        invariant
            n == contents@.len(),
            0 <= i <= n,
            join_lines(texts(parts@).push(cur@)) == contents@.take(i as int),
            no_newlines(texts(parts@).push(cur@)),
        decreases n - i,
    {
        let c = contents.get_char(i);
        let ghost before = texts(parts@).push(cur@);
        if c == '\n' {
            parts.push(cur);
            cur = String::from_str("");
            proof {
                reveal_strlit("");
                assert(texts(parts@) =~= before);
                let after = texts(parts@).push(cur@);
                assert(after.drop_last() =~= before);
                assert(after.last() =~= Seq::<char>::empty());
                assert(contents@.take(i + 1) =~= contents@.take(i as int).push('\n'));
                assert(join_lines(after) =~= contents@.take(i + 1));
                assert forall|a: int, b: int| 0 <= a < after.len() && 0 <= b < after[a].len() implies #[trigger] after[a][b]
                    != '\n' by {
                    if a < before.len() {
                        assert(after[a] == before[a]);
                    }
                }
            }
        } else {
            let ghost old_cur = cur@;
            push_char(&mut cur, c);
            proof {
                assert(contents@.take(i + 1) =~= contents@.take(i as int).push(c));
                let after = texts(parts@).push(cur@);
                assert(after =~= before.drop_last().push(old_cur.push(c)));
                if before.len() == 1 {
                    assert(join_lines(after) =~= contents@.take(i + 1));
                } else {
                    assert(after.drop_last() =~= before.drop_last());
                    assert(join_lines(after) =~= contents@.take(i + 1));
                }
                assert forall|a: int, b: int| 0 <= a < after.len() && 0 <= b < after[a].len() implies #[trigger] after[a][b]
                    != '\n' by {
                    if a < before.len() - 1 {
                        assert(after[a] == before[a]);
                    } else if b < old_cur.len() {
                        assert(after[a][b] == before[a][b]);
                    }
                }
            }
        }
        i = i + 1;
    }
    let ghost last = cur@;
    let ghost before = texts(parts@);
    parts.push(cur);
    proof {
        assert(contents@.take(n as int) =~= contents@);
        assert(texts(parts@) =~= before.push(last));
    }
    parts
}

/// Whether the word list can feed the name maker: at least two lines, and
/// every line but the last of two or more ASCII characters.
pub open spec fn name_source_ok(words: Seq<Seq<char>>) -> bool {
    &&& words.len() >= 2
    &&& forall|i: int| 0 <= i < words.len() - 1 ==> #[trigger] words[i].len() >= 2 && is_ascii_text(words[i])
}

/// A name made from a word: the word reversed without its first letter, a
/// letter added at the end, the character at `cut` left out, all in lower
/// case but the first character, which is upper case.
pub open spec fn shaped_name(word: Seq<char>, letter: char, cut: int) -> Seq<char> {
    let added = word.reverse().drop_last().push(letter);
    let lowered = added.remove(cut).map_values(|c: char| ascii_lower(c));
    lowered.update(0, ascii_upper(lowered[0]))
}

/// Whether `name` is a name the maker can draw from `words`: from a line
/// other than the last, with an added letter from 'a' to 'y' and a cut
/// before the added letter.
pub open spec fn drawn_name(words: Seq<Seq<char>>, name: Seq<char>) -> bool {
    exists|i: int, letter: char, cut: int|
        0 <= i < words.len() - 1 && 'a' <= letter <= 'y' && 0 <= cut < words[i].len() - 1 && name
            == #[trigger] shaped_name(words[i], letter, cut)
}

/// Builds a name from a word, an added letter and the position left out.
pub fn name_from_parts(word: &str, letter: char, cut: usize) -> (r: String)
    requires
        word@.len() >= 2,
        cut < word@.len() - 1,
    ensures
        r@ == shaped_name(word@, letter, cut as int),
{
    let n = word.unicode_len();
    let mut added: Vec<char> = Vec::new();
    let mut j: usize = 0;
    while j < n - 1
        invariant
            n == word@.len(),
            n >= 2,
            0 <= j <= n - 1,
            added@ == word@.reverse().take(j as int),
        decreases n - 1 - j,
    {
        added.push(word.get_char(n - 1 - j));
        assert(added@ =~= word@.reverse().take(j + 1));
        j = j + 1;
    }
    added.push(letter);
    assert(added@ =~= word@.reverse().drop_last().push(letter));
    added.remove(cut);
    let ghost kept = added@;
    let mut out = String::from_str("");
    proof {
        reveal_strlit("");
    }
    let mut k: usize = 0;
    while k < added.len()
        invariant
            added@ == kept,
            kept.len() >= 1,
            0 <= k <= kept.len(),
            out@.len() == k,
            forall|m: int|
                0 <= m < k ==> #[trigger] out@[m] == (if m == 0 {
                    ascii_upper(ascii_lower(kept[0]))
                } else {
                    ascii_lower(kept[m])
                }),
        decreases kept.len() - k,
    {
        let low = lower_char(added[k]);
        if k == 0 {
            push_char(&mut out, upper_char(low));
        } else {
            push_char(&mut out, low);
        }
        k = k + 1;
    }
    assert(out@ =~= shaped_name(word@, letter, cut as int));
    out
}

/// Makes a creature's name from a random line of `words` (never the last),
/// a random letter from 'a' to 'y' and a random position left out.
pub fn get_name(words: &Vec<String>) -> (r: String)
    requires
        name_source_ok(texts(words@)),
    ensures
        drawn_name(texts(words@), r@),
{
    let i = random_below(words.len() - 1);
    let letters = "abcdefghijklmnopqrstuvwxy";
    proof {
        reveal_strlit("abcdefghijklmnopqrstuvwxy");
    }
    let letter = letters.get_char(random_below(25));
    let word = words[i].as_str();
    assert(texts(words@)[i as int] == word@);
    let cut = random_below(word.unicode_len() - 1);
    let r = name_from_parts(word, letter, cut);
    assert('a' <= letter <= 'y');
    r
}

/// Whether the word list can feed the name maker (see `name_source_ok`).
pub fn words_ok(words: &Vec<String>) -> (r: bool)
    ensures
        r == name_source_ok(texts(words@)),
{
    let ghost t = texts(words@);
    if words.len() < 2 {
        return false;
    }
    let mut i: usize = 0;
    while i < words.len() - 1
        invariant
            t == texts(words@),
            words@.len() >= 2,
            0 <= i <= words@.len() - 1,
            forall|a: int| 0 <= a < i ==> #[trigger] t[a].len() >= 2 && is_ascii_text(t[a]),
        decreases words@.len() - 1 - i,
    {
        let w = words[i].as_str();
        assert(t[i as int] == w@);
        let n = w.unicode_len();
        if n < 2 {
            return false;
        }
        let mut j: usize = 0;
        while j < n
            invariant
                t == texts(words@),
                0 <= i < words@.len() - 1,
                t[i as int] == w@,
                n == w@.len(),
                0 <= j <= n,
                forall|b: int| 0 <= b < j ==> (#[trigger] w@[b] as int) < 128,
            decreases n - j,
        {
            let c = w.get_char(j);
            if (c as u32) >= 128 {
                assert(w@[j as int] == c);
                assert((t[i as int][j as int] as int) >= 128);
                assert(!is_ascii_text(t[i as int]));
                return false;
            }
            j = j + 1;
        }
        i = i + 1;
    }
    true
}

} // verus!
