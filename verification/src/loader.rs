//! Parsing a frequency-ranked word list.
//!
//! Each line of the source file reads `word<TAB>frequency`, already
//! sorted by descending frequency. Parsing takes the word field of each
//! line (the tab-separated field just before the last one), keeps only
//! words of exactly five characters, and stops once the requested number
//! of words has been collected or the lines run out.

use vstd::prelude::*;

use vstd::pervasive::unreached;

verus! {

/// The tab-separated field at the end of the line: the characters after
/// the last tab, or the whole line when it has no tab.
pub open spec fn last_field(line: Seq<char>) -> Seq<char>
    decreases line.len(),
{
    if line.len() == 0 {
        line
    } else if line.last() == '\t' {
        Seq::empty()
    } else {
        last_field(line.drop_last()).push(line.last())
    }
}

/// The characters before the last tab of the line, or the empty sequence
/// when it has no tab.
pub open spec fn before_last_tab(line: Seq<char>) -> Seq<char>
    decreases line.len(),
{
    if line.len() == 0 {
        line
    } else if line.last() == '\t' {
        line.drop_last()
    } else {
        before_last_tab(line.drop_last())
    }
}

/// The word field of a line: the tab-separated field just before the
/// last one. The final field holds the frequency and is discarded.
pub open spec fn word_field(line: Seq<char>) -> Seq<char> {
    last_field(before_last_tab(line))
}

/// The words that parsing collects from the lines: the word field of
/// each line in order, five-character words only, at most `count` of
/// them.
pub open spec fn parse_model(lines: Seq<String>, count: int) -> Seq<Seq<char>>
    decreases lines.len(),
{
    if lines.len() == 0 || count <= 0 {
        Seq::empty()
    } else {
        let w = word_field(lines[0]@);
        let rest = parse_model(lines.drop_first(), if w.len() == 5 { count - 1 } else { count });
        if w.len() == 5 {
            seq![w] + rest
        } else {
            rest
        }
    }
}

/// The views of the words in a list.
pub open spec fn views_of(words: Seq<String>) -> Seq<Seq<char>> {
    words.map_values(|w: String| w@)
}

/// The index of the last tab of the line.
fn last_tab_index(line: &str) -> (j: usize)
    requires
        line@.contains('\t'),
    ensures
        j < line@.len(),
        line@[j as int] == '\t',
        forall|m: int| j < m < line@.len() ==> line@[m] != '\t',
{
    let n = line.unicode_len();
    let mut k: usize = n;
    while k > 0
        invariant
            0 <= k <= n,
            n == line@.len(),
            forall|m: int| k <= m < n ==> line@[m] != '\t',
        decreases k,
    {
        if line.get_char(k - 1) == '\t' {
            return k - 1;
        }
        k -= 1;
    }
    proof {
        let w = choose|w: int| 0 <= w < line@.len() && line@[w] == '\t';
        assert(false);
    }
    unreached()
}

/// The first index of the tab-separated field that ends just before
/// position `j`: either 0 or the position right after the previous tab.
fn field_start_before(line: &str, j: usize) -> (i: usize)
    requires
        j < line@.len(),
    ensures
        i <= j,
        i == 0 || line@[i - 1] == '\t',
        forall|m: int| i <= m < j ==> line@[m] != '\t',
{
    let mut i: usize = j;
    while i > 0
        invariant
            0 <= i <= j,
            j < line@.len(),
            forall|m: int| i <= m < j ==> line@[m] != '\t',
        decreases i,
    {
        if line.get_char(i - 1) == '\t' {
            return i;
        }
        i -= 1;
    }
    0
}

/// When `j` is the last tab, the characters before it are `line.take(j)`.
proof fn lemma_before_last_tab_is_take(line: Seq<char>, j: int)
    requires
        0 <= j < line.len(),
        line[j] == '\t',
        forall|m: int| j < m < line.len() ==> line[m] != '\t',
    ensures
        before_last_tab(line) == line.take(j),
    decreases line.len(),
{
    if j == line.len() - 1 {
        assert(line.drop_last() =~= line.take(j));
    } else {
        assert(line.last() != '\t');
        lemma_before_last_tab_is_take(line.drop_last(), j);
        assert(line.drop_last().take(j) =~= line.take(j));
    }
}

/// When no tab stands at or after position `i`, and `i` starts a field,
/// the last field is everything from `i` on.
proof fn lemma_last_field_is_skip(s: Seq<char>, i: int)
    requires
        0 <= i <= s.len(),
        i == 0 || s[i - 1] == '\t',
        forall|m: int| i <= m < s.len() ==> s[m] != '\t',
    ensures
        last_field(s) == s.skip(i),
    decreases s.len(),
{
    if s.len() == 0 {
        assert(s.skip(i) =~= s);
    } else if i == s.len() {
        assert(s.last() == '\t');
        assert(s.skip(i) =~= Seq::<char>::empty());
    } else {
        assert(s.last() != '\t');
        lemma_last_field_is_skip(s.drop_last(), i);
        assert(s.drop_last().skip(i).push(s.last()) =~= s.skip(i));
    }
}

/// Extracts the word field of a line: the tab-separated field just
/// before the last one.
fn word_of_line(line: &str) -> (w: String)
    requires
        line@.contains('\t'),
    ensures
        w@ == word_field(line@),
{
    let j = last_tab_index(line);
    let i = field_start_before(line, j);
    proof {
        lemma_before_last_tab_is_take(line@, j as int);
        lemma_last_field_is_skip(line@.take(j as int), i as int);
        assert(line@.take(j as int).skip(i as int) =~= line@.subrange(i as int, j as int));
    }
    let field = line.substring_char(i, j);
    field.to_owned()
}

/// Appends to `words` the word field of each line, keeping only
/// five-character words, until `count` words have been collected or the
/// lines are exhausted. Lines are processed in order, so the words keep
/// the frequency order of the source.
pub fn parse_words(words: &mut Vec<String>, lines: &Vec<String>, count: u64)
    requires
        count >= 1,
        forall|i: int| 0 <= i < lines@.len() ==> (#[trigger] lines@[i])@.contains('\t'),
    ensures
        final(words)@.len() == old(words)@.len() + parse_model(lines@, count as int).len(),
        forall|i: int| 0 <= i < old(words)@.len() ==> final(words)@[i] == old(words)@[i],
        forall|i: int|
            0 <= i < parse_model(lines@, count as int).len() ==> (#[trigger] final(words)@[old(
                words,
            )@.len() + i])@ == parse_model(lines@, count as int)[i],
{
    let ghost base = words@;
    let n = lines.len();
    let mut c: u64 = count;
    let mut idx: usize = 0;
    proof {
        assert(words@.skip(base.len() as int) =~= Seq::<String>::empty());
        assert(views_of(Seq::<String>::empty()) =~= Seq::<Seq<char>>::empty());
        assert(lines@.skip(0) =~= lines@);
        assert(Seq::<Seq<char>>::empty() + parse_model(lines@, count as int) =~= parse_model(
            lines@,
            count as int,
        ));
    }
    while idx < n && c > 0
        invariant
            0 <= idx <= n,
            n == lines@.len(),
            0 <= c <= count,
            forall|i: int| 0 <= i < lines@.len() ==> (#[trigger] lines@[i])@.contains('\t'),
            words@.len() >= base.len(),
            forall|i: int| 0 <= i < base.len() ==> words@[i] == base[i],
            parse_model(lines@, count as int) == views_of(words@.skip(base.len() as int))
                + parse_model(lines@.skip(idx as int), c as int),
        decreases n - idx,
    {
        let ghost appended = words@.skip(base.len() as int);
        proof {
            assert(lines@.skip(idx as int)[0] == lines@[idx as int]);
            assert(lines@.skip(idx as int).drop_first() =~= lines@.skip(idx as int + 1));
        }
        let line = &lines[idx];
        let w = word_of_line(line.as_str());
        if w.as_str().unicode_len() == 5 {
            let ghost wstr = w;
            let ghost wv = w@;
            words.push(w);
            c -= 1;
            proof {
                assert(words@.skip(base.len() as int) =~= appended.push(wstr));
                assert(views_of(appended.push(wstr)) =~= views_of(appended).push(wv));
                assert(views_of(appended).push(wv) + parse_model(
                    lines@.skip(idx as int + 1),
                    c as int,
                ) =~= views_of(appended) + (seq![wv] + parse_model(
                    lines@.skip(idx as int + 1),
                    c as int,
                )));
            }
        }
        idx += 1;
    }
    proof {
        if idx == n {
            assert(parse_model(lines@.skip(n as int), c as int) =~= Seq::<Seq<char>>::empty());
        }
        let appended = words@.skip(base.len() as int);
        assert(parse_model(lines@, count as int) == views_of(appended));
        assert(views_of(appended).len() == appended.len());
        assert forall|i: int| 0 <= i < parse_model(lines@, count as int).len() implies (
        #[trigger] words@[base.len() + i])@ == parse_model(lines@, count as int)[i] by {
            assert(views_of(appended)[i] == appended[i]@);
            assert(appended[i] == words@[base.len() + i]);
        }
    }
}

} // verus!
