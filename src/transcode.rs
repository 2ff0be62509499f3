//! Reads and rewrites the manifest that a Rust script carries in its leading
//! `//!` documentation comment.

use crate::locate::{
    event_views, lemma_first_block_wins, locate_manifest_block, located, markdown_events,
    markdown_events_of, MdEvent, MdEventView,
};
use crate::text::{
    char_offset, char_offset_of, join_lines, lines_of, opt_view, opt_views, push_line, split_lines,
    views,
};
use crate::Failure;
use syn::{Lit, Meta, MetaNameValue};
use vstd::prelude::*;

verus! {

broadcast use vstd::seq::group_seq_axioms;

/// Where a token stands in the source: lines count from 1, columns count
/// characters from 0.
#[derive(Clone, Copy, Debug, PartialEq, Eq, Structural)]
pub struct TokenSpan {
    pub start_line: usize,
    pub start_column: usize,
    pub end_line: usize,
    pub end_column: usize,
}

/// An inner attribute of the form `#![name = "value"]`, with the spans of the
/// tokens that follow its path. A `//!` comment is such an attribute named `doc`.
#[derive(Clone, Debug)]
pub struct Attr {
    pub ident: Option<String>,
    pub value: String,
    pub spans: Vec<TokenSpan>,
}

pub struct AttrView {
    pub ident: Option<Seq<char>>,
    pub value: Seq<char>,
    pub spans: Seq<TokenSpan>,
}

/// What a parse of a source file gives: its interpreter line, if any, and its
/// inner attributes in order (`None` for one of another form).
#[derive(Clone, Debug)]
pub struct RustFile {
    pub shebang: Option<String>,
    pub attrs: Vec<Option<Attr>>,
}

pub struct RustFileView {
    pub shebang: Option<Seq<char>>,
    pub attrs: Seq<Option<AttrView>>,
}

impl View for Attr {
    type V = AttrView;

    open spec fn view(&self) -> AttrView {
        AttrView { ident: opt_view(self.ident), value: self.value@, spans: self.spans@ }
    }
}

pub open spec fn attr_views(v: Seq<Option<Attr>>) -> Seq<Option<AttrView>> {
    v.map_values(
        |o: Option<Attr>|
            match o {
                Some(a) => Some(a@),
                None => None,
            },
    )
}

impl View for RustFile {
    type V = RustFileView;

    open spec fn view(&self) -> RustFileView {
        RustFileView { shebang: opt_view(self.shebang), attrs: attr_views(self.attrs@) }
    }
}

/// What syn makes of a source file; `None` where it does not parse.
pub uninterp spec fn rust_file_of(code: Seq<char>) -> Option<RustFileView>;

#[verifier::external_type_specification]
#[verifier::external_body]
pub struct ExSynError(syn::Error);

/// Relies on `syn::parse_file`: the interpreter line, and each inner attribute
/// that `Attribute::parse_meta` reads as a name-value pair with a string
/// literal, with the line and column of each of its tokens.
#[verifier::external_body]
fn parse_rust_file(code: &str) -> (r: Result<RustFile, syn::Error>)
    ensures
        r is Ok <==> rust_file_of(code@) is Some,
        r matches Ok(f) ==> rust_file_of(code@) == Some(f@),
{
    let file = syn::parse_file(code)?;
    let attrs = file.attrs.iter().map(|a| match a.parse_meta() {
        Ok(Meta::NameValue(MetaNameValue { path, lit: Lit::Str(lit), .. })) => Some(Attr {
            ident: path.get_ident().map(|i| i.to_string()),
            value: lit.value(),
            spans: a.tokens.clone().into_iter().map(|t| (t.span().start(), t.span().end())).map(|(s, e)| TokenSpan { start_line: s.line, start_column: s.column, end_line: e.line, end_column: e.column }).collect(),
        }),
        _ => None,
    }).collect();
    Ok(RustFile { shebang: file.shebang, attrs })
}

/// Relies on the `Display` of `syn::Error`, for the message shown to the user.
#[verifier::external_body]
fn parse_error_message(e: &syn::Error) -> String {
    e.to_string()
}

/// The identifier of documentation attributes.
pub open spec fn doc_ident() -> Seq<char> {
    seq!['d', 'o', 'c']
}

/// `s` without its leading spaces.
pub open spec fn trim_spaces(s: Seq<char>) -> Seq<char>
    decreases s.len(),
{
    if s.len() > 0 && s[0] == ' ' {
        trim_spaces(s.drop_first())
    } else {
        s
    }
}

/// A line with the characters from `start` up to `end` cut out (up to its end
/// when `end` is `None` or past it); `None` when nothing is left.
pub open spec fn cut(line: Seq<char>, start: int, end: Option<int>) -> Option<Seq<char>> {
    let first = if start < line.len() {
        line.take(start)
    } else {
        line
    };
    let second = match end {
        Some(e) => if e < line.len() {
            line.skip(e)
        } else {
            seq![]
        },
        None => seq![],
    };
    let r = first + second;
    if r.len() == 0 {
        None
    } else {
        Some(r)
    }
}

/// Cuts from line `i` (counted from 0), where that line is still there.
pub open spec fn remove_at(ls: Seq<Option<Seq<char>>>, i: int, start: int, end: Option<int>) -> Seq<
    Option<Seq<char>>,
> {
    if 0 <= i < ls.len() && ls[i] is Some {
        ls.update(i, cut(ls[i]->0, start, end))
    } else {
        ls
    }
}

/// Drops the lines from `from` up to `to`.
pub open spec fn remove_lines(ls: Seq<Option<Seq<char>>>, from: int, to: int) -> Seq<
    Option<Seq<char>>,
> {
    Seq::new(
        ls.len(),
        |k: int|
            if from <= k < to {
                None
            } else {
                ls[k]
            },
    )
}

/// Removes the text of one token from the lines.
pub open spec fn remove_span(ls: Seq<Option<Seq<char>>>, sp: TokenSpan) -> Seq<Option<Seq<char>>> {
    if sp.start_line == sp.end_line {
        remove_at(ls, sp.start_line - 1, sp.start_column as int, Some(sp.end_column as int))
    } else {
        let a = remove_at(ls, sp.start_line - 1, sp.start_column as int, None);
        let b = remove_lines(a, sp.start_line as int, sp.end_line - 1);
        remove_at(b, sp.end_line - 1, 0, Some(sp.end_column as int))
    }
}

pub open spec fn remove_spans(ls: Seq<Option<Seq<char>>>, spans: Seq<TokenSpan>) -> Seq<
    Option<Seq<char>>,
>
    decreases spans.len(),
{
    if spans.len() == 0 {
        ls
    } else {
        remove_span(remove_spans(ls, spans.drop_last()), spans.last())
    }
}

pub open spec fn is_doc(a: AttrView) -> bool {
    a.ident == Some(doc_ident())
}

/// The documentation body gathered from `attrs` and the lines left once the
/// documentation comments are cut out of `ls`.
pub open spec fn gather(ls: Seq<Option<Seq<char>>>, attrs: Seq<Option<AttrView>>) -> (
    Seq<char>,
    Seq<Option<Seq<char>>>,
)
    decreases attrs.len(),
{
    if attrs.len() == 0 {
        (seq![], ls)
    } else {
        let (doc, rest) = gather(ls, attrs.drop_last());
        match attrs.last() {
            Some(a) => if is_doc(a) {
                (doc + trim_spaces(a.value) + seq!['\n'], remove_spans(rest, a.spans))
            } else {
                (doc, rest)
            },
            None => (doc, rest),
        }
    }
}

/// The source lines, with the interpreter line taken out.
pub open spec fn initial_lines(code: Seq<char>, shebang: Option<Seq<char>>) -> Seq<
    Option<Seq<char>>,
> {
    let ls = lines_of(code).map_values(|l: Seq<char>| Some(l));
    if shebang is Some && ls.len() > 0 {
        ls.update(0, None)
    } else {
        ls
    }
}

/// The documentation body of a parsed source file, and its other lines.
pub open spec fn harvest_spec(code: Seq<char>, f: RustFileView) -> (Seq<char>, Seq<Option<Seq<char>>>) {
    gather(initial_lines(code, f.shebang), f.attrs)
}

/// The lines that were not cut out, in order.
pub open spec fn kept(ls: Seq<Option<Seq<char>>>) -> Seq<Seq<char>>
    decreases ls.len(),
{
    if ls.len() == 0 {
        seq![]
    } else {
        match ls.last() {
            Some(l) => kept(ls.drop_last()).push(l),
            None => kept(ls.drop_last()),
        }
    }
}

/// A source file taken apart: its documentation body, and its lines with the
/// documentation comments cut out (`None` where nothing of a line is left).
#[derive(Clone, Debug)]
pub struct Harvest {
    pub doc: String,
    pub lines: Vec<Option<String>>,
}

fn trim_spaces_str(s: &str) -> (r: String)
    ensures
        r@ == trim_spaces(s@),
{
    let n = s.unicode_len();
    let mut k: usize = 0;
    assert(s@.skip(0) =~= s@);
    while k < n && s.get_char(k) == ' '
        invariant
            n == s@.len(),
            k <= n,
            trim_spaces(s@) == trim_spaces(s@.skip(k as int)),
        decreases n - k,
    {
        assert(s@.skip(k as int).drop_first() =~= s@.skip(k + 1));
        k = k + 1;
    }
    let r = s.substring_char(k, n).to_owned();
    assert(r@ =~= s@.skip(k as int));
    r
}

fn cut_str(line: &str, start: usize, end: Option<usize>) -> (r: Option<String>)
    ensures
        opt_view(r) == cut(line@, start as int, match end {
            Some(e) => Some(e as int),
            None => None,
        }),
{
    let n = line.unicode_len();
    let st = if start < n {
        start
    } else {
        n
    };
    let mut r = line.substring_char(0, st).to_owned();
    assert(r@ == (if start < n {
        line@.take(start as int)
    } else {
        line@
    }));
    match end {
        Some(e) => if e < n {
            r.append(line.substring_char(e, n));
            assert(line@.subrange(e as int, n as int) =~= line@.skip(e as int));
        } else {
            assert(r@ + Seq::<char>::empty() =~= r@);
        },
        None => {
            assert(r@ + Seq::<char>::empty() =~= r@);
        },
    }
    if r.unicode_len() == 0 {
        None
    } else {
        Some(r)
    }
}

fn remove_at_exec(ls: &mut Vec<Option<String>>, i: usize, start: usize, end: Option<usize>)
    ensures
        opt_views(final(ls)@) == remove_at(opt_views(old(ls)@), i as int, start as int, match end {
            Some(e) => Some(e as int),
            None => None,
        }),
{
    if i < ls.len() {
        let next = match &ls[i] {
            Some(line) => Some(cut_str(line.as_str(), start, end)),
            None => None,
        };
        match next {
            Some(n) => {
                ls[i] = n;
                assert(opt_views(ls@) =~= remove_at(opt_views(old(ls)@), i as int, start as int, match end {
                    Some(e) => Some(e as int),
                    None => None,
                }));
            },
            None => {},
        }
    }
}

fn remove_span_exec(ls: &mut Vec<Option<String>>, sp: TokenSpan)
    ensures
        opt_views(final(ls)@) == remove_span(opt_views(old(ls)@), sp),
{
    if sp.start_line == sp.end_line {
        if sp.start_line > 0 {
            remove_at_exec(ls, sp.start_line - 1, sp.start_column, Some(sp.end_column));
        }
    } else {
        if sp.start_line > 0 {
            remove_at_exec(ls, sp.start_line - 1, sp.start_column, None);
        }
        let ghost a = opt_views(ls@);
        if sp.end_line > 0 {
            let mut k: usize = sp.start_line;
            assert(a =~= remove_lines(a, sp.start_line as int, k as int));
            while k < sp.end_line - 1
                invariant
                    sp.start_line <= k,
                    sp.end_line > 0,
                    k == sp.start_line || k <= sp.end_line - 1,
                    opt_views(ls@) == remove_lines(a, sp.start_line as int, k as int),
                decreases sp.end_line - k,
            {
                let ghost prev = ls@;
                if k < ls.len() {
                    ls[k] = None;
                    assert(opt_views(ls@) =~= opt_views(prev).update(k as int, None));
                }
                k = k + 1;
                assert(opt_views(ls@) =~= remove_lines(a, sp.start_line as int, k as int));
            }
            assert(remove_lines(a, sp.start_line as int, k as int) =~= remove_lines(
                a,
                sp.start_line as int,
                sp.end_line - 1,
            ));
            remove_at_exec(ls, sp.end_line - 1, 0, Some(sp.end_column));
        } else {
            assert(opt_views(ls@) =~= remove_lines(a, sp.start_line as int, sp.end_line - 1));
        }
    }
}

/// Cuts the documentation comments out of the lines of `code` and gathers
/// their text, each de-prefixed value followed by a line feed.
pub fn harvest(code: &str, file: &RustFile) -> (r: Harvest)
    ensures
        (r.doc@, opt_views(r.lines@)) == harvest_spec(code@, file@),
{
    let split = split_lines(code);
    let mut lines: Vec<Option<String>> = Vec::new();
    let mut i: usize = 0;
    while i < split.len()
        invariant
            i <= split@.len(),
            lines@.len() == i,
            forall|m: int| 0 <= m < i ==> opt_views(lines@)[m] == Some(lines_of(code@)[m]),
            views(split@) == lines_of(code@),
        decreases split@.len() - i,
    {
        let line = split[i].clone();
        proof {
            assert(split@[i as int]@ == views(split@)[i as int]);
        }
        let ghost prev = lines@;
        lines.push(Some(line));
        proof {
            assert forall|m: int| 0 <= m < i + 1 implies opt_views(lines@)[m] == Some(
                lines_of(code@)[m],
            ) by {
                if m < i {
                    assert(lines@[m] == prev[m]);
                    assert(opt_views(prev)[m] == opt_view(prev[m]));
                }
            }
        }
        i = i + 1;
    }
    assert(opt_views(lines@) =~= lines_of(code@).map_values(|l: Seq<char>| Some(l)));
    if file.shebang.is_some() && lines.len() > 0 {
        lines[0] = None;
        assert(opt_views(lines@) =~= initial_lines(code@, file@.shebang));
    }
    let mut doc = String::new();
    let mut j: usize = 0;
    while j < file.attrs.len()
        invariant
            j <= file.attrs@.len(),
            (doc@, opt_views(lines@)) == gather(initial_lines(code@, file@.shebang), file@.attrs.take(j as int)),
        decreases file.attrs@.len() - j,
    {
        proof {
            assert(file@.attrs.take(j + 1).drop_last() =~= file@.attrs.take(j as int));
        }
        match &file.attrs[j] {
            Some(a) => {
                if is_doc_ident(&a.ident) {
                    let v = trim_spaces_str(a.value.as_str());
                    push_line(&mut doc, v.as_str());
                    let ghost before = opt_views(lines@);
                    let mut k: usize = 0;
                    while k < a.spans.len()
                        invariant
                            k <= a.spans@.len(),
                            opt_views(lines@) == remove_spans(before, a.spans@.take(k as int)),
                        decreases a.spans@.len() - k,
                    {
                        proof {
                            assert(a.spans@.take(k + 1).drop_last() =~= a.spans@.take(k as int));
                        }
                        remove_span_exec(&mut lines, a.spans[k]);
                        k = k + 1;
                    }
                    assert(a.spans@.take(a.spans@.len() as int) =~= a.spans@);
                }
            },
            None => {},
        }
        j = j + 1;
    }
    assert(file@.attrs.take(file.attrs@.len() as int) =~= file@.attrs);
    Harvest { doc, lines }
}

fn is_doc_ident(ident: &Option<String>) -> (r: bool)
    ensures
        r == (opt_view(*ident) == Some(doc_ident())),
{
    match ident {
        Some(s) => {
            let s = s.as_str();
            if s.unicode_len() != 3 {
                return false;
            }
            let r = s.get_char(0) == 'd' && s.get_char(1) == 'o' && s.get_char(2) == 'c';
            if r {
                assert(s@ =~= doc_ident());
            }
            r
        },
        None => false,
    }
}

/// How one line of the documentation body is written back.
pub open spec fn render_doc_line(l: Seq<char>) -> Seq<char> {
    if l.len() == 0 {
        seq!['/', '/', '!']
    } else {
        seq!['/', '/', '!', ' '] + l
    }
}

/// The source text: the interpreter line, the documentation body as `//!`
/// lines, then the remaining lines, each followed by a line feed.
pub open spec fn render(shebang: Option<Seq<char>>, doc: Seq<char>, ls: Seq<Option<Seq<char>>>) -> Seq<
    char,
> {
    let head: Seq<Seq<char>> = match shebang {
        Some(s) => seq![s],
        None => seq![],
    };
    join_lines(head) + join_lines(lines_of(doc).map_values(|l: Seq<char>| render_doc_line(l)))
        + join_lines(kept(ls))
}

/// The new manifest with a final line feed, unless it is empty or has one.
pub open spec fn normalized(with: Seq<char>) -> Seq<char> {
    if with.len() == 0 || with.last() == '\n' {
        with
    } else {
        with.push('\n')
    }
}

/// The character range of the manifest block's text in `doc`.
pub open spec fn manifest_span(doc: Seq<char>, events: Seq<MdEventView>) -> Option<(int, int)> {
    match located(events) {
        Some((a, b)) => match (char_offset(doc, a as int), char_offset(doc, b as int)) {
            (Some(x), Some(y)) => if x <= y {
                Some((x, y))
            } else {
                None
            },
            _ => None,
        },
        None => None,
    }
}

/// The source with the manifest block's text replaced, and the text that was
/// there; `None` when the block cannot be found.
pub open spec fn splice_spec(
    shebang: Option<Seq<char>>,
    doc: Seq<char>,
    ls: Seq<Option<Seq<char>>>,
    events: Seq<MdEventView>,
    with: Seq<char>,
) -> Option<(Seq<char>, Seq<char>)> {
    match manifest_span(doc, events) {
        Some((x, y)) => Some(
            (
                render(shebang, doc.take(x) + normalized(with) + doc.skip(y), ls),
                doc.subrange(x, y),
            ),
        ),
        None => None,
    }
}

/// The outcome of replacing the manifest of `code` with `with`: `None` where
/// the source does not parse, `Some(None)` where it has no manifest block.
pub open spec fn transcoded(code: Seq<char>, with: Seq<char>) -> Option<
    Option<(Seq<char>, Seq<char>)>,
> {
    match rust_file_of(code) {
        None => None,
        Some(f) => {
            let (doc, ls) = harvest_spec(code, f);
            Some(splice_spec(f.shebang, doc, ls, markdown_events_of(doc), with))
        },
    }
}

/// The manifest that `code` carries, if it parses and has one.
pub open spec fn extracted(code: Seq<char>) -> Option<Seq<char>> {
    match transcoded(code, seq![]) {
        Some(Some((_, m))) => Some(m),
        _ => None,
    }
}

/// Writing the file back from its documentation body, unchanged, gives it
/// again.
pub open spec fn renders_back(code: Seq<char>) -> bool {
    match rust_file_of(code) {
        Some(f) => {
            let (doc, ls) = harvest_spec(code, f);
            render(f.shebang, doc, ls) == code
        },
        None => false,
    }
}

pub proof fn lemma_join_lines_append(a: Seq<Seq<char>>, b: Seq<Seq<char>>)
    ensures
        join_lines(a + b) == join_lines(a) + join_lines(b),
    decreases b.len(),
{
    if b.len() == 0 {
        assert(a + b =~= a);
        assert(join_lines(a) + join_lines(b) =~= join_lines(a));
    } else {
        assert((a + b).drop_last() =~= a + b.drop_last());
        lemma_join_lines_append(a, b.drop_last());
        assert(join_lines(a + b) =~= join_lines(a) + join_lines(b));
    }
}

fn push_doc_line(out: &mut String, l: &str)
    ensures
        final(out)@ == old(out)@ + render_doc_line(l@) + seq!['\n'],
{
    if l.unicode_len() == 0 {
        let bare = "//!";
        proof {
            reveal_strlit("//!");
        }
        push_line(out, bare);
        assert(old(out)@ + bare@ + seq!['\n'] =~= old(out)@ + render_doc_line(l@) + seq!['\n']);
    } else {
        let prefix = "//! ";
        proof {
            reveal_strlit("//! ");
        }
        out.append(prefix);
        push_line(out, l);
        assert(old(out)@ + prefix@ + l@ + seq!['\n'] =~= old(out)@ + render_doc_line(l@) + seq![
            '\n',
        ]);
    }
}

/// Writes the source text back from its parts.
pub fn render_source(shebang: &Option<String>, doc: &str, lines: &Vec<Option<String>>) -> (r: String)
    ensures
        r@ == render(opt_view(*shebang), doc@, opt_views(lines@)),
{
    let mut out = String::new();
    let ghost head: Seq<Seq<char>> = match opt_view(*shebang) {
        Some(s) => seq![s],
        None => seq![],
    };
    match shebang {
        Some(s) => {
            push_line(&mut out, s.as_str());
            proof {
                assert(head =~= seq![s@]);
                assert(head.drop_last() =~= Seq::<Seq<char>>::empty());
                assert(join_lines(head.drop_last()) =~= Seq::<char>::empty());
                assert(out@ =~= join_lines(head));
            }
        },
        None => {
            assert(head =~= Seq::<Seq<char>>::empty());
        },
    }
    assert(out@ =~= join_lines(head));
    let doc_lines = split_lines(doc);
    let ghost docs = lines_of(doc@).map_values(|l: Seq<char>| render_doc_line(l));
    let ghost base = out@;
    let mut i: usize = 0;
    assert(docs.take(0) =~= Seq::<Seq<char>>::empty());
    while i < doc_lines.len()
        invariant
            i <= doc_lines@.len(),
            views(doc_lines@) == lines_of(doc@),
            docs == lines_of(doc@).map_values(|l: Seq<char>| render_doc_line(l)),
            out@ == base + join_lines(docs.take(i as int)),
        decreases doc_lines@.len() - i,
    {
        proof {
            assert(doc_lines@[i as int]@ == views(doc_lines@)[i as int]);
            assert(docs.take(i + 1).drop_last() =~= docs.take(i as int));
        }
        push_doc_line(&mut out, doc_lines[i].as_str());
        i = i + 1;
        assert(out@ =~= base + join_lines(docs.take(i as int)));
    }
    assert(docs.take(doc_lines@.len() as int) =~= docs);
    let ghost base2 = out@;
    let mut j: usize = 0;
    assert(opt_views(lines@).take(0) =~= Seq::<Option<Seq<char>>>::empty());
    assert(base2 =~= base2 + join_lines(kept(opt_views(lines@).take(0))));
    while j < lines.len()
        invariant
            j <= lines@.len(),
            out@ == base2 + join_lines(kept(opt_views(lines@).take(j as int))),
        decreases lines@.len() - j,
    {
        proof {
            assert(opt_views(lines@).take(j + 1).drop_last() =~= opt_views(lines@).take(j as int));
        }
        match &lines[j] {
            Some(l) => {
                push_line(&mut out, l.as_str());
                proof {
                    let k = kept(opt_views(lines@).take(j as int));
                    assert(k.push(l@).drop_last() =~= k);
                    assert(out@ =~= base2 + join_lines(k.push(l@)));
                }
            },
            None => {},
        }
        j = j + 1;
    }
    assert(opt_views(lines@).take(lines@.len() as int) =~= opt_views(lines@));
    out
}

/// Replaces the text of the manifest block found by `events` in the body,
/// and writes the source back; also gives the text that was replaced.
pub fn splice(shebang: &Option<String>, h: &Harvest, events: &Vec<MdEvent>, with: &str) -> (r: Option<
    (String, String),
>)
    ensures
        match r {
            Some((a, b)) => splice_spec(
                opt_view(*shebang),
                h.doc@,
                opt_views(h.lines@),
                event_views(events@),
                with@,
            ) == Some((a@, b@)),
            None => splice_spec(
                opt_view(*shebang),
                h.doc@,
                opt_views(h.lines@),
                event_views(events@),
                with@,
            ) is None,
        },
{
    let doc = h.doc.as_str();
    let (bs, be) = match locate_manifest_block(events) {
        Some(span) => span,
        None => return None,
    };
    let cs = match char_offset_of(doc, bs) {
        Some(c) => c,
        None => return None,
    };
    let ce = match char_offset_of(doc, be) {
        Some(c) => c,
        None => return None,
    };
    if cs > ce {
        return None;
    }
    let n = doc.unicode_len();
    let mut new_doc = doc.substring_char(0, cs).to_owned();
    new_doc.append(with);
    let wn = with.unicode_len();
    if !(wn == 0 || with.get_char(wn - 1) == '\n') {
        let nl = "\n";
        proof {
            reveal_strlit("\n");
        }
        new_doc.append(nl);
    }
    new_doc.append(doc.substring_char(ce, n));
    assert(new_doc@ =~= doc@.take(cs as int) + normalized(with@) + doc@.skip(ce as int));
    let old_text = doc.substring_char(cs, ce).to_owned();
    let out = render_source(shebang, new_doc.as_str(), &h.lines);
    Some((out, old_text))
}

/// Replaces the manifest that `code` carries in its leading documentation
/// comment with `with`, keeping every other line; gives the new source and
/// the manifest that was there.
pub fn replace_cargo_lang_code(code: &str, with: &str, on_not_found: &str) -> (r: Result<
    (String, String),
    Failure,
>)
    ensures
        match transcoded(code@, with@) {
            None => r matches Err(Failure::Parse(_)),
            Some(None) => r matches Err(Failure::ManifestBlockNotFound(m)) && m@ == on_not_found@,
            Some(Some((a, b))) => r matches Ok((x, y)) && x@ == a && y@ == b,
        },
{
    let file = match parse_rust_file(code) {
        Ok(f) => f,
        Err(e) => return Err(Failure::Parse(parse_error_message(&e))),
    };
    let h = harvest(code, &file);
    let events = markdown_events(h.doc.as_str());
    match splice(&file.shebang, &h, &events, with) {
        Some(pair) => Ok(pair),
        None => Err(Failure::ManifestBlockNotFound(on_not_found.to_owned())),
    }
}

/// The manifest that `code` carries in its leading documentation comment.
pub fn extract_cargo_lang_code(code: &str, on_not_found: &str) -> (r: Result<String, Failure>)
    ensures
        match transcoded(code@, seq![]) {
            None => r matches Err(Failure::Parse(_)),
            Some(None) => r matches Err(Failure::ManifestBlockNotFound(m)) && m@ == on_not_found@,
            Some(Some((_, b))) => r matches Ok(y) && y@ == b,
        },
{
    let empty = "";
    proof {
        reveal_strlit("");
    }
    assert(empty@ =~= Seq::<char>::empty());
    match replace_cargo_lang_code(code, empty, on_not_found) {
        Ok((_, m)) => Ok(m),
        Err(e) => Err(e),
    }
}

/// The manifest placeholder that a package's source keeps.
pub open spec fn default_manifest() -> Seq<char> {
    seq!['#', ' ', 'L', 'e', 'a', 'v', 'e', ' ', 'b', 'l', 'a', 'n', 'k', '.']
}

/// Splits a script into the package's source, whose manifest block holds only
/// a placeholder, and the manifest.
pub fn replace_cargo_lang_code_with_default(code: &str) -> (r: Result<(String, String), Failure>)
    ensures
        match transcoded(code@, default_manifest()) {
            None => r matches Err(Failure::Parse(_)),
            Some(None) => r matches Err(Failure::ManifestBlockNotFound(_)),
            Some(Some((a, b))) => r matches Ok((x, y)) && x@ == a && y@ == b,
        },
{
    let placeholder = "# Leave blank.";
    proof {
        reveal_strlit("# Leave blank.");
    }
    assert(placeholder@ =~= default_manifest());
    replace_cargo_lang_code(code, placeholder, "could not find the `cargo` code block")
}

/// Putting back the manifest that was read from a file leaves the file
/// byte for byte as it was, provided the file is in the form that writing
/// gives (writing it back from its unchanged documentation body reproduces
/// it) and the manifest is empty or ends with a line feed.
pub proof fn lemma_replace_extracted_is_identity(code: Seq<char>)
    requires
        extracted(code) matches Some(m) && (m.len() == 0 || m.last() == '\n'),
        renders_back(code),
    ensures
        transcoded(code, extracted(code)->0) == Some(Some((code, extracted(code)->0))),
{
    let m = extracted(code)->0;
    let f = rust_file_of(code)->0;
    let (doc, ls) = harvest_spec(code, f);
    let (x, y) = manifest_span(doc, markdown_events_of(doc))->0;
    assert(doc.take(x) + normalized(m) + doc.skip(y) =~= doc);
}

/// Where a body holds several `cargo` blocks, the manifest is the text of the
/// first: events after the first complete block do not move the span.
pub proof fn lemma_manifest_span_of_first_block(
    doc: Seq<char>,
    first: Seq<MdEventView>,
    rest: Seq<MdEventView>,
)
    requires
        located(first) is Some,
    ensures
        manifest_span(doc, first + rest) == manifest_span(doc, first),
{
    lemma_first_block_wins(first, rest);
}

} // verus!
