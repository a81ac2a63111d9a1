//! The on-disk form of the recipients ledger: a text file with one
//! fingerprint per line. Writing puts a newline after every fingerprint;
//! reading takes the nonempty lines, so a trailing newline or blank lines
//! do not change what the ledger means.

use vstd::prelude::*;

verus! {

/// The text of a ledger file: each fingerprint followed by a newline.
pub open spec fn serialize_spec(l: Seq<Seq<char>>) -> Seq<char>
    decreases l.len(),
{
    if l.len() == 0 {
        Seq::empty()
    } else {
        l[0] + seq!['\n'] + serialize_spec(l.skip(1))
    }
}

/// Where the text's first line ends: its first newline, or its end.
pub open spec fn line_end(text: Seq<char>) -> int
    decreases text.len(),
{
    if text.len() == 0 {
        0
    } else if text[0] == '\n' {
        0
    } else {
        1 + line_end(text.skip(1))
    }
}

/// The fingerprints a ledger text holds: its nonempty lines, in order.
pub open spec fn parse_spec(text: Seq<char>) -> Seq<Seq<char>>
    decreases text.len(),
{
    let e = line_end(text);
    if text.len() == 0 {
        Seq::empty()
    } else if 0 <= e && e < text.len() {
        let line = text.take(e);
        let rest = text.skip(e + 1);
        if line.len() == 0 {
            parse_spec(rest)
        } else {
            seq![line] + parse_spec(rest)
        }
    } else {
        seq![text]
    }
}

/// A text that starts with a newline-free line ends that line exactly at
/// the newline.
proof fn lemma_line_end_concat(line: Seq<char>, rest: Seq<char>)
    requires
        forall|j: int| 0 <= j < line.len() ==> line[j] != '\n',
    ensures
        line_end(line + seq!['\n'] + rest) == line.len(),
    decreases line.len(),
{
    let t = line + seq!['\n'] + rest;
    if line.len() == 0 {
        assert(t[0] == '\n');
    } else {
        assert(t[0] == line[0]);
        lemma_line_end_concat(line.skip(1), rest);
        assert(t.skip(1) =~= line.skip(1) + seq!['\n'] + rest);
    }
}

/// A newline-free text is all one line.
proof fn lemma_line_end_no_newline(line: Seq<char>)
    requires
        forall|j: int| 0 <= j < line.len() ==> line[j] != '\n',
    ensures
        line_end(line) == line.len(),
    decreases line.len(),
{
    if line.len() > 0 {
        lemma_line_end_no_newline(line.skip(1));
    }
}

/// Parsing takes one newline-terminated, newline-free line off the front:
/// the line itself where it is nonempty, nothing where it is empty.
proof fn lemma_parse_line(line: Seq<char>, rest: Seq<char>)
    requires
        forall|j: int| 0 <= j < line.len() ==> line[j] != '\n',
    ensures
        parse_spec(line + seq!['\n'] + rest) == (if line.len() == 0 {
            Seq::<Seq<char>>::empty()
        } else {
            seq![line]
        }) + parse_spec(rest),
{
    let t = line + seq!['\n'] + rest;
    lemma_line_end_concat(line, rest);
    assert(t.take(line.len() as int) =~= line);
    assert(t.skip(line.len() as int + 1) =~= rest);
    if line.len() == 0 {
        assert(parse_spec(t) =~= Seq::<Seq<char>>::empty() + parse_spec(rest));
    }
}

/// A newline-free text parses to itself as a single fingerprint, or to
/// nothing when it is empty.
proof fn lemma_parse_no_newline(line: Seq<char>)
    requires
        forall|j: int| 0 <= j < line.len() ==> line[j] != '\n',
    ensures
        parse_spec(line) == (if line.len() == 0 {
            Seq::<Seq<char>>::empty()
        } else {
            seq![line]
        }),
{
    lemma_line_end_no_newline(line);
}

/// Serializing one more fingerprint appends it and its newline.
proof fn lemma_serialize_push(l: Seq<Seq<char>>, x: Seq<char>)
    ensures
        serialize_spec(l.push(x)) == serialize_spec(l) + x + seq!['\n'],
    decreases l.len(),
{
    if l.len() == 0 {
        assert(l.push(x)[0] == x);
        assert(l.push(x).skip(1) =~= Seq::<Seq<char>>::empty());
        assert(serialize_spec(l.push(x)) == x + seq!['\n'] + serialize_spec(
            Seq::<Seq<char>>::empty(),
        ));
        assert(serialize_spec(Seq::<Seq<char>>::empty()) == Seq::<char>::empty());
        assert(serialize_spec(l.push(x)) =~= serialize_spec(l) + x + seq!['\n']);
    } else {
        assert(l.push(x)[0] == l[0]);
        lemma_serialize_push(l.skip(1), x);
        assert(l.push(x).skip(1) =~= l.skip(1).push(x));
        assert(serialize_spec(l.push(x)) =~= serialize_spec(l) + x + seq!['\n']);
    }
}

/// Law: the ledger file round-trips — writing the ledger and reading the
/// text back yields exactly the same fingerprints, for fingerprints that
/// are nonempty and hold no line break.
pub proof fn lemma_ledger_round_trip(l: Seq<Seq<char>>)
    requires
        forall|i: int| 0 <= i < l.len() ==> (#[trigger] l[i]).len() > 0,
        forall|i: int, j: int| 0 <= i < l.len() && 0 <= j < l[i].len() ==> l[i][j] != '\n',
    ensures
        parse_spec(serialize_spec(l)) == l,
    decreases l.len(),
{
    if l.len() > 0 {
        assert(forall|j: int| 0 <= j < l[0].len() ==> l[0][j] != '\n');
        lemma_parse_line(l[0], serialize_spec(l.skip(1)));
        lemma_ledger_round_trip(l.skip(1));
        assert(parse_spec(serialize_spec(l)) =~= l);
    }
}

/// The ledger file's text for the given fingerprints: one per line.
pub fn serialize_ledger(l: &Vec<String>) -> (r: String)
    ensures
        r@ == serialize_spec(l.deep_view()),
{
    let mut out = String::new();
    let mut i: usize = 0;
    proof {
        reveal_strlit("\n");
    }
    while i < l.len()
        invariant
            i <= l@.len(),
            out@ == serialize_spec(l.deep_view().take(i as int)),
            "\n"@ =~= seq!['\n'],
        decreases l@.len() - i,
    {
        out.append(l[i].as_str());
        out.append("\n");
        proof {
            lemma_serialize_push(l.deep_view().take(i as int), l@[i as int]@);
            assert(l.deep_view().take(i + 1 as int) =~= l.deep_view().take(i as int).push(
                l@[i as int]@,
            ));
        }
        i += 1;
    }
    proof {
        assert(l.deep_view().take(l@.len() as int) =~= l.deep_view());
    }
    out
}

/// The fingerprints in a ledger file's text: its nonempty lines, in order.
pub fn parse_ledger(text: &String) -> (r: Vec<String>)
    ensures
        r.deep_view() == parse_spec(text@),
{
    let ps = text.as_str();
    let n = ps.unicode_len();
    let mut out: Vec<String> = Vec::new();
    let mut line_start: usize = 0;
    let mut i: usize = 0;
    proof {
        assert(text@.skip(0) =~= text@);
        assert(out.deep_view() + parse_spec(text@) =~= parse_spec(text@));
    }
    while i < n
        invariant
            n == text@.len(),
            ps@ == text@,
            line_start <= i <= n,
            forall|j: int| line_start <= j < i ==> text@[j] != '\n',
            parse_spec(text@) == out.deep_view() + parse_spec(text@.skip(line_start as int)),
        decreases n - i,
    {
        if ps.get_char(i) == '\n' {
            proof {
                let lseq = text@.subrange(line_start as int, i as int);
                let rest = text@.skip(i + 1);
                assert(text@.skip(line_start as int) =~= lseq + seq!['\n'] + rest);
                lemma_parse_line(lseq, rest);
            }
            if i > line_start {
                let ghost before = out.deep_view();
                let ghost lseq = text@.subrange(line_start as int, i as int);
                let ghost rest = text@.skip(i + 1);
                let line = ps.substring_char(line_start, i);
                out.push(line.to_owned());
                proof {
                    assert(out.deep_view() =~= before.push(lseq));
                    assert(before + (seq![lseq] + parse_spec(rest)) =~= before.push(lseq)
                        + parse_spec(rest));
                }
            } else {
                proof {
                    let rest = text@.skip(i + 1);
                    assert(Seq::<Seq<char>>::empty() + parse_spec(rest) =~= parse_spec(rest));
                }
            }
            line_start = i + 1;
        }
        i += 1;
    }
    let ghost tail = text@.skip(line_start as int);
    proof {
        lemma_parse_no_newline(tail);
    }
    if line_start < n {
        let ghost before = out.deep_view();
        let line = ps.substring_char(line_start, n);
        out.push(line.to_owned());
        proof {
            assert(tail =~= text@.subrange(line_start as int, n as int));
            assert(out.deep_view() =~= before.push(tail));
            assert(before + seq![tail] =~= before.push(tail));
        }
    } else {
        proof {
            assert(out.deep_view() + parse_spec(tail) =~= out.deep_view());
        }
    }
    proof {
        assert(out.deep_view() =~= parse_spec(text@));
    }
    out
}

} // verus!
