//! The texts of a folder's row and editor: its album and option summaries,
//! and the ignore patterns as one text of lines.
use vstd::prelude::*;
use vstd::string::*;
use crate::config::{strings_view, AlbumMode, FolderConfig, FolderConfigView};
use crate::text::{chars_of, decimal_spec, is_blank, is_blank_spec, push_decimal, push_str, string_from_chars};

verus! {

broadcast use vstd::string::group_string_axioms;

/// The album part of a folder's row.
pub open spec fn album_label_spec(f: FolderConfigView) -> Seq<char> {
    match f.album_mode {
        AlbumMode::NoAlbum => "Album: None"@,
        AlbumMode::FromFolder => "Album: From folder"@,
        AlbumMode::Named => "Album: \""@ + f.album_name + "\""@,
    }
}

/// The album part of a folder's row: none, named after the folder, or the
/// album's name in quotes.
pub fn album_label(f: &FolderConfig) -> (r: String)
    ensures
        r@ == album_label_spec(f@),
{
    match f.album_mode {
        AlbumMode::NoAlbum => String::from_str("Album: None"),
        AlbumMode::FromFolder => String::from_str("Album: From folder"),
        AlbumMode::Named => {
            let mut r = String::from_str("Album: \"");
            push_str(&mut r, f.album_name.as_str());
            push_str(&mut r, "\"");
            r
        },
    }
}

/// `Yes` or `No`.
pub open spec fn yes_no_spec(b: bool) -> Seq<char> {
    if b {
        "Yes"@
    } else {
        "No"@
    }
}

/// The options part of a folder's row.
pub open spec fn folder_summary_spec(f: FolderConfigView) -> Seq<char> {
    "Recursive: "@ + yes_no_spec(f.recursive) + "  Hidden: "@ + yes_no_spec(f.include_hidden)
        + "  Concurrency: "@ + decimal_spec(f.concurrency as nat)
}

fn push_yes_no(s: &mut String, b: bool)
    ensures
        final(s)@ == old(s)@ + yes_no_spec(b),
{
    if b {
        push_str(s, "Yes");
    } else {
        push_str(s, "No");
    }
}

/// The options part of a folder's row: recursion, hidden files and
/// concurrency.
pub fn folder_summary(f: &FolderConfig) -> (r: String)
    ensures
        r@ == folder_summary_spec(f@),
{
    let mut r = String::from_str("Recursive: ");
    push_yes_no(&mut r, f.recursive);
    push_str(&mut r, "  Hidden: ");
    push_yes_no(&mut r, f.include_hidden);
    push_str(&mut r, "  Concurrency: ");
    push_decimal(&mut r, f.concurrency as u64);
    r
}

/// The strings of `v` joined with a line feed between each two.
pub open spec fn join_lines_spec(v: Seq<Seq<char>>) -> Seq<char>
    decreases v.len(),
{
    if v.len() == 0 {
        Seq::empty()
    } else if v.len() == 1 {
        v[0]
    } else {
        join_lines_spec(v.drop_last()) + "\n"@ + v.last()
    }
}

/// The patterns as the editor shows them: one per line.
pub fn join_lines(v: &Vec<String>) -> (r: String)
    ensures
        r@ == join_lines_spec(strings_view(v@)),
{
    let mut r = String::new();
    let mut i: usize = 0;
    while i < v.len()
        invariant
            i <= v@.len(),
            r@ == join_lines_spec(strings_view(v@).take(i as int)),
        decreases v.len() - i,
    {
        let ghost sv = strings_view(v@);
        assert(sv.take(i + 1).drop_last() =~= sv.take(i as int));
        if i > 0 {
            push_str(&mut r, "\n");
        }
        push_str(&mut r, v[i].as_str());
        proof {
            if i == 0 {
                assert(r@ =~= join_lines_spec(sv.take(1)));
            }
        }
        i = i + 1;
    }
    assert(strings_view(v@).take(v@.len() as int) =~= strings_view(v@));
    r
}

/// The pieces of `s` between line feeds: one more than there are line feeds.
pub open spec fn split_newlines(s: Seq<char>) -> Seq<Seq<char>>
    decreases s.len(),
{
    if s.len() == 0 {
        seq![Seq::empty()]
    } else {
        let r = split_newlines(s.drop_last());
        if s.last() == '\n' {
            r.push(Seq::empty())
        } else {
            r.update(r.len() - 1, r.last().push(s.last()))
        }
    }
}

/// A piece that ended at a line feed, without a carriage return before it.
pub open spec fn strip_cr(l: Seq<char>) -> Seq<char> {
    if l.len() > 0 && l.last() == '\r' {
        l.drop_last()
    } else {
        l
    }
}

/// The lines of `s` as `str::lines` yields them: split at `\n` or `\r\n`,
/// the line endings left out, and no empty line after a final line ending.
pub open spec fn lines_spec(s: Seq<char>) -> Seq<Seq<char>> {
    let pieces = split_newlines(s);
    let ended = pieces.drop_last().map_values(|l: Seq<char>| strip_cr(l));
    if pieces.last().len() == 0 {
        ended
    } else {
        ended.push(pieces.last())
    }
}

/// The elements of `v` that are not blank, in order.
pub open spec fn non_blank_spec(v: Seq<Seq<char>>) -> Seq<Seq<char>>
    decreases v.len(),
{
    if v.len() == 0 {
        Seq::empty()
    } else {
        let r = non_blank_spec(v.drop_last());
        if is_blank_spec(v.last()) {
            r
        } else {
            r.push(v.last())
        }
    }
}

proof fn lemma_split_append_plain(a: Seq<char>, b: Seq<char>)
    requires
        forall|i: int| 0 <= i < b.len() ==> b[i] != '\n',
    ensures
        ({
            let r = split_newlines(a);
            split_newlines(a + b) == r.update(r.len() - 1, r.last() + b)
        }),
    decreases b.len(),
{
    lemma_split_newlines_nonempty(a);
    let r = split_newlines(a);
    if b.len() == 0 {
        assert(a + b =~= a);
        assert(r.last() + b =~= r.last());
        assert(r.update(r.len() - 1, r.last() + b) =~= r);
    } else {
        lemma_split_append_plain(a, b.drop_last());
        assert((a + b).drop_last() =~= a + b.drop_last());
        assert((a + b).last() == b.last());
        let q = split_newlines(a + b.drop_last());
        assert(q.last() == r.last() + b.drop_last());
        assert(q.last().push(b.last()) =~= r.last() + b);
        assert(split_newlines(a + b) =~= r.update(r.len() - 1, r.last() + b));
    }
}

proof fn lemma_split_join(ps: Seq<Seq<char>>)
    requires
        ps.len() > 0,
        forall|i: int, j: int| 0 <= i < ps.len() && 0 <= j < ps[i].len() ==> ps[i][j] != '\n',
    ensures
        split_newlines(join_lines_spec(ps)) == ps,
    decreases ps.len(),
{
    if ps.len() == 1 {
        lemma_split_append_plain(Seq::empty(), ps[0]);
        assert(Seq::<char>::empty() + ps[0] =~= ps[0]);
        assert(seq![Seq::<char>::empty()].update(0, Seq::<char>::empty() + ps[0]) =~= ps);
    } else {
        let init = ps.drop_last();
        lemma_split_join(init);
        let j = join_lines_spec(init);
        let nl = j + "\n"@;
        reveal_strlit("\n");
        assert(nl.drop_last() =~= j);
        assert(nl.last() == '\n');
        assert(split_newlines(nl) == init.push(Seq::empty()));
        lemma_split_append_plain(nl, ps.last());
        assert(Seq::<char>::empty() + ps.last() =~= ps.last());
        assert(init.push(Seq::empty()).update(init.len() as int, Seq::<char>::empty() + ps.last()) =~= ps);
    }
}

/// Showing patterns in the editor and reading the text back gives the
/// patterns that count, in order: every pattern that is not blank and holds
/// no line break (nor ends with a carriage return) comes back as it was.
pub proof fn lemma_patterns_round_trip(ps: Seq<Seq<char>>)
    requires
        forall|i: int, j: int| 0 <= i < ps.len() && 0 <= j < ps[i].len() ==> ps[i][j] != '\n',
        forall|i: int| 0 <= i < ps.len() ==> !(ps[i].len() > 0 && (#[trigger] ps[i]).last() == '\r'),
    ensures
        non_blank_spec(lines_spec(join_lines_spec(ps))) == non_blank_spec(ps),
{
    if ps.len() == 0 {
        assert(lines_spec(Seq::empty()) =~= Seq::<Seq<char>>::empty());
    } else {
        lemma_split_join(ps);
        let ended = ps.drop_last().map_values(|l: Seq<char>| strip_cr(l));
        assert forall|i: int| 0 <= i < ended.len() implies ended[i] == ps.drop_last()[i] by {
            assert(ps.drop_last()[i] == ps[i]);
        }
        assert(ended =~= ps.drop_last());
        if ps.last().len() == 0 {
            assert(is_blank_spec(ps.last()));
        } else {
            assert(ended.push(ps.last()) =~= ps);
        }
    }
}

proof fn lemma_split_newlines_nonempty(s: Seq<char>)
    ensures
        split_newlines(s).len() >= 1,
    decreases s.len(),
{
    if s.len() > 0 {
        lemma_split_newlines_nonempty(s.drop_last());
    }
}

/// The ignore patterns in the editor's text: its lines, blank ones left out.
pub fn parse_ignore_patterns(text: &str) -> (r: Vec<String>)
    ensures
        strings_view(r@) == non_blank_spec(lines_spec(text@)),
{
    let cs = chars_of(text);
    let ghost s = text@;
    // The pieces ended by a line feed, and the start of the current piece.
    let mut ended: Vec<(usize, usize)> = Vec::new();
    let mut start: usize = 0;
    let mut i: usize = 0;
    while i < cs.len()
        invariant
            cs@ == s,
            start <= i <= cs@.len(),
            ({
                let pieces = split_newlines(s.take(i as int));
                &&& pieces.len() == ended@.len() + 1
                &&& pieces.last() == s.subrange(start as int, i as int)
                &&& forall|j: int| 0 <= j < ended@.len() ==> {
                    let (a, b) = #[trigger] ended@[j];
                    a <= b <= cs@.len() && pieces[j] == s.subrange(a as int, b as int)
                }
            }),
        decreases cs.len() - i,
    {
        proof {
            lemma_split_newlines_nonempty(s.take(i as int));
            assert(s.take(i + 1).drop_last() =~= s.take(i as int));
        }
        if cs[i] == '\n' {
            ended.push((start, i));
            start = i + 1;
            proof {
                let pieces = split_newlines(s.take(i + 1));
                assert(s.subrange(i + 1, i + 1) =~= Seq::<char>::empty());
                assert forall|j: int| 0 <= j < ended@.len() implies {
                    let (a, b) = #[trigger] ended@[j];
                    a <= b <= cs@.len() && pieces[j] == s.subrange(a as int, b as int)
                } by {}
            }
        } else {
            proof {
                let prev = split_newlines(s.take(i as int));
                let pieces = split_newlines(s.take(i + 1));
                assert(s.subrange(start as int, i + 1) =~= s.subrange(start as int, i as int).push(cs@[i as int]));
                assert forall|j: int| 0 <= j < ended@.len() implies {
                    let (a, b) = #[trigger] ended@[j];
                    a <= b <= cs@.len() && pieces[j] == s.subrange(a as int, b as int)
                } by {
                    assert(pieces[j] == prev[j]);
                }
            }
        }
        i = i + 1;
    }
    assert(s.take(cs@.len() as int) =~= s);
    let ghost pieces = split_newlines(s);
    let ghost lines = lines_spec(s);
    // Every ended piece, its carriage return removed, then the last piece
    // unless it is empty; blank lines left out.
    let mut r: Vec<String> = Vec::new();
    let mut j: usize = 0;
    while j < ended.len()
        invariant
            cs@ == s,
            j <= ended@.len(),
            pieces == split_newlines(s),
            pieces.len() == ended@.len() + 1,
            forall|k: int| 0 <= k < ended@.len() ==> {
                let (a, b) = #[trigger] ended@[k];
                a <= b <= cs@.len() && pieces[k] == s.subrange(a as int, b as int)
            },
            strings_view(r@) == non_blank_spec(pieces.drop_last().map_values(|l: Seq<char>| strip_cr(l)).take(j as int)),
        decreases ended.len() - j,
    {
        let (a, b) = ended[j];
        let ghost piece = pieces[j as int];
        let end = if b > a && cs[b - 1] == '\r' {
            b - 1
        } else {
            b
        };
        let line = string_from_chars(cs.as_slice(), a, end);
        proof {
            assert(piece == s.subrange(a as int, b as int));
            if b > a && cs@[b - 1] == '\r' {
                assert(piece.last() == '\r');
                assert(line@ =~= strip_cr(piece));
            } else {
                assert(line@ =~= strip_cr(piece));
            }
            let m = pieces.drop_last().map_values(|l: Seq<char>| strip_cr(l));
            assert(m.take(j + 1).drop_last() =~= m.take(j as int));
            assert(m.take(j + 1).last() == strip_cr(piece));
        }
        if !is_blank(line.as_str()) {
            r.push(line);
        }
        proof {
            let m = pieces.drop_last().map_values(|l: Seq<char>| strip_cr(l));
            assert(strings_view(r@) =~= non_blank_spec(m.take(j + 1)));
        }
        j = j + 1;
    }
    proof {
        let m = pieces.drop_last().map_values(|l: Seq<char>| strip_cr(l));
        assert(m.take(ended@.len() as int) =~= m);
    }
    if start < cs.len() {
        let last = string_from_chars(cs.as_slice(), start, cs.len());
        if !is_blank(last.as_str()) {
            r.push(last);
        }
        proof {
            let m = pieces.drop_last().map_values(|l: Seq<char>| strip_cr(l));
            assert(pieces.last() == last@);
            assert(lines == m.push(last@));
            assert(m.push(last@).drop_last() =~= m);
            assert(strings_view(r@) =~= non_blank_spec(lines));
        }
    } else {
        proof {
            assert(pieces.last().len() == 0);
        }
    }
    r
}

} // verus!
