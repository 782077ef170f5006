//! The formatter port and the default formatter, which turns a raw
//! transcript into structured Markdown in the Obsidian, Logseq or plain
//! style.
use vstd::prelude::*;

use crate::errors::DomainError;
use crate::text::{
    chars_of, decimal, has_other, nonblank_trimmed, push_all, push_str, push_u64, split_on,
    split_vec, string_of, trim, trim_nonblank, views, Strip,
};
use crate::time::{rfc3339, spec_rfc3339, UtcTimestamp};
use crate::value::{
    AudioDurationSecs, FormattedOutputStyle, LanguageIso, MarkdownContent, NoteTitle, RawTranscript,
};

verus! {

/// Metadata handed to the formatter beside the text.
#[derive(Debug)]
pub struct NoteMeta {
    pub date: UtcTimestamp,
    pub duration: Option<AudioDurationSecs>,
    pub language: LanguageIso,
    pub source: String,
}

impl Clone for NoteMeta {
    fn clone(&self) -> (r: Self)
        ensures
            r == *self,
    {
        NoteMeta {
            date: self.date,
            duration: self.duration,
            language: self.language.clone(),
            source: self.source.clone(),
        }
    }
}

/// Formatting strategy: turns a transcript into Markdown.
pub trait Formatter {
    /// What `format` gives for these arguments: the Markdown text or the
    /// error.
    spec fn spec_format(
        &self,
        transcript: RawTranscript,
        title: NoteTitle,
        style: FormattedOutputStyle,
        meta: NoteMeta,
    ) -> Result<Seq<char>, DomainError>;

    fn format(
        &self,
        transcript: &RawTranscript,
        title: NoteTitle,
        style: FormattedOutputStyle,
        meta: NoteMeta,
    ) -> (r: Result<MarkdownContent, DomainError>)
        ensures
            match self.spec_format(*transcript, title, style, meta) {
                Ok(md) => r matches Ok(m) && m@ == md,
                Err(e) => r == Err::<MarkdownContent, DomainError>(e),
            },
    ;
}

// ---------------------------------------------------------------------------
// The document, as a function of its inputs
// ---------------------------------------------------------------------------

/// The paragraphs of a transcript: its lines, trimmed, without blank ones.
pub open spec fn paragraphs(s: Seq<char>) -> Seq<Seq<char>> {
    nonblank_trimmed(split_on(s, '\n'))
}

/// The YAML front matter.
pub open spec fn frontmatter_text(title: Seq<char>, meta: NoteMeta) -> Seq<char> {
    "---\n"@ + "title: \""@ + title + "\"\n"@ + "date: "@ + spec_rfc3339(meta.date@.0, meta.date@.1)
        + "\n"@ + "language: "@ + meta.language@ + "\n"@ + "source: "@ + meta.source@ + "\n"@
        + match meta.duration {
        Some(d) => "duration: "@ + decimal(d@ as int) + "\n"@,
        None => Seq::<char>::empty(),
    } + "tags: [voice-note]\n"@ + "---\n\n"@
}

/// One paragraph in the body: a bullet for Logseq, a paragraph otherwise.
pub open spec fn body_item(p: Seq<char>, style: FormattedOutputStyle) -> Seq<char> {
    match style {
        FormattedOutputStyle::Logseq => "- "@ + p + "\n"@,
        _ => p + "\n\n"@,
    }
}

/// The body: the paragraphs, each rendered in the style.
pub open spec fn body_text(ps: Seq<Seq<char>>, style: FormattedOutputStyle) -> Seq<char>
    decreases ps.len(),
{
    if ps.len() == 0 {
        seq![]
    } else {
        body_text(ps.drop_last(), style) + body_item(ps.last(), style)
    }
}

/// The heading line.
pub open spec fn heading_text(title: Seq<char>) -> Seq<char> {
    "# "@ + title + "\n\n"@
}

/// The document that the default formatter writes.
pub open spec fn default_markdown(
    transcript: Seq<char>,
    title: Seq<char>,
    style: FormattedOutputStyle,
    meta: NoteMeta,
) -> Seq<char> {
    let head = match style {
        FormattedOutputStyle::Plain => heading_text(title),
        _ => frontmatter_text(title, meta) + heading_text(title),
    };
    head + body_text(paragraphs(transcript), style)
}

// ---------------------------------------------------------------------------
// The default formatter
// ---------------------------------------------------------------------------

/// The formatter that ships with the library.
#[derive(Debug, Clone, Copy, Default)]
pub struct DefaultFormatter;

/// The paragraphs of `v`.
fn split_paragraphs(v: &Vec<char>) -> (r: Vec<Vec<char>>)
    ensures
        views(r@) == paragraphs(v@),
{
    let lines = split_vec(v, '\n');
    trim_nonblank(&lines)
}

/// Appends the body for the paragraphs.
fn push_body(out: &mut Vec<char>, paras: &Vec<Vec<char>>, style: FormattedOutputStyle)
    ensures
        final(out)@ == old(out)@ + body_text(views(paras@), style),
{
    let mut i: usize = 0;
    assert(views(paras@).take(0) == Seq::<Seq<char>>::empty());
    while i < paras.len()
        invariant
            i <= paras.len(),
            out@ == old(out)@ + body_text(views(paras@).take(i as int), style),
        decreases paras.len() - i,
    {
        let p = &paras[i];
        let ghost before = out@;
        match style {
            FormattedOutputStyle::Logseq => {
                push_str(out, "- ");
                push_all(out, p);
                push_str(out, "\n");
            },
            _ => {
                push_all(out, p);
                push_str(out, "\n\n");
            },
        }
        proof {
            let ps = views(paras@);
            assert(ps.take(i + 1).drop_last() == ps.take(i as int));
            assert(ps.take(i + 1).last() == p@);
            assert(out@ =~= before + body_item(p@, style));
        }
        i = i + 1;
    }
    assert(views(paras@).take(paras.len() as int) == views(paras@));
}

/// Appends the front matter.
fn push_frontmatter(out: &mut Vec<char>, title: &NoteTitle, meta: &NoteMeta)
    ensures
        final(out)@ == old(out)@ + frontmatter_text(title@, *meta),
{
    push_str(out, "---\n");
    push_str(out, "title: \"");
    push_str(out, title.as_str());
    push_str(out, "\"\n");
    push_str(out, "date: ");
    let date = rfc3339(&meta.date);
    push_str(out, date.as_str());
    push_str(out, "\n");
    push_str(out, "language: ");
    push_str(out, meta.language.as_str());
    push_str(out, "\n");
    push_str(out, "source: ");
    push_str(out, meta.source.as_str());
    push_str(out, "\n");
    let ghost before_duration = out@;
    match meta.duration {
        Some(d) => {
            push_str(out, "duration: ");
            push_u64(out, d.get() as u64);
            push_str(out, "\n");
        },
        None => {},
    }
    push_str(out, "tags: [voice-note]\n");
    push_str(out, "---\n\n");
    assert(out@ =~= old(out)@ + frontmatter_text(title@, *meta));
}

impl Formatter for DefaultFormatter {
    open spec fn spec_format(
        &self,
        transcript: RawTranscript,
        title: NoteTitle,
        style: FormattedOutputStyle,
        meta: NoteMeta,
    ) -> Result<Seq<char>, DomainError> {
        Ok(default_markdown(transcript@, title@, style, meta))
    }

    fn format(
        &self,
        transcript: &RawTranscript,
        title: NoteTitle,
        style: FormattedOutputStyle,
        meta: NoteMeta,
    ) -> (r: Result<MarkdownContent, DomainError>) {
        let v = chars_of(transcript.as_str());
        let paras = split_paragraphs(&v);
        let mut out: Vec<char> = Vec::new();
        match style {
            FormattedOutputStyle::Plain => {},
            _ => {
                push_frontmatter(&mut out, &title, &meta);
            },
        }
        let ghost before_heading = out@;
        push_str(&mut out, "# ");
        push_str(&mut out, title.as_str());
        push_str(&mut out, "\n\n");
        assert(out@ =~= before_heading + heading_text(title@));
        push_body(&mut out, &paras, style);
        proof {
            reveal_strlit("# ");
            reveal_strlit("---\n");
            assert(out@ =~= default_markdown(transcript@, title@, style, meta));
            assert(out@[0] == '#' || out@[0] == '-');
            assert(has_other(out@, Strip::Whitespace));
        }
        let s = string_of(&out);
        MarkdownContent::new(s.as_str())
    }
}


/// Law: a plain document starts with the heading `# <title>`; the other
/// styles start with the front matter. Either way the document is never
/// blank, so the default formatter never fails.
pub proof fn law_document_start(
    transcript: Seq<char>,
    title: Seq<char>,
    style: FormattedOutputStyle,
    meta: NoteMeta,
)
    ensures
        style == FormattedOutputStyle::Plain ==> default_markdown(transcript, title, style, meta).take(
            2,
        ) == "# "@,
        style != FormattedOutputStyle::Plain ==> default_markdown(transcript, title, style, meta).take(
            4,
        ) == "---\n"@,
        has_other(default_markdown(transcript, title, style, meta), Strip::Whitespace),
{
    reveal_strlit("# ");
    reveal_strlit("---\n");
    let d = default_markdown(transcript, title, style, meta);
    if style == FormattedOutputStyle::Plain {
        assert(d.take(2) =~= "# "@);
        assert(d[0] == '#');
    } else {
        assert(d.take(4) =~= "---\n"@);
        assert(d[0] == '-');
    }
}

// ---------------------------------------------------------------------------
// Laws of the document
// ---------------------------------------------------------------------------

/// Text without a line feed is one line.
proof fn lemma_split_one_line(line: Seq<char>)
    requires
        !line.contains('\n'),
    ensures
        split_on(line, '\n') == seq![line],
    decreases line.len(),
{
    if line.len() == 0 {
        assert(line =~= Seq::<char>::empty());
    } else {
        let d = line.drop_last();
        assert(!d.contains('\n')) by {
            if d.contains('\n') {
                let i = choose|i: int| 0 <= i < d.len() && d[i] == '\n';
                assert(line[i] == '\n');
            }
        }
        lemma_split_one_line(d);
        let c = line.last();
        assert(c == line[line.len() - 1]);
        if c == '\n' {
            assert(line.contains('\n'));
        }
        assert(d.push(c) =~= line);
        assert(seq![d].drop_last().push(seq![d].last().push(c)) =~= seq![line]);
    }
}

/// A line feed and a line without one, appended to a text, add that line
/// to its lines.
proof fn lemma_split_append_line(t: Seq<char>, line: Seq<char>)
    requires
        !line.contains('\n'),
    ensures
        split_on(t + seq!['\n'] + line, '\n') == split_on(t, '\n').push(line),
    decreases line.len(),
{
    let base = t + seq!['\n'];
    if line.len() == 0 {
        assert(line =~= Seq::<char>::empty());
        assert(base + line =~= base);
        assert(base.drop_last() =~= t);
        assert(base.last() == '\n');
        assert(split_on(t, '\n').push(Seq::<char>::empty()) == split_on(t, '\n').push(line));
    } else {
        let d = line.drop_last();
        assert(!d.contains('\n')) by {
            if d.contains('\n') {
                let i = choose|i: int| 0 <= i < d.len() && d[i] == '\n';
                assert(line[i] == '\n');
            }
        }
        lemma_split_append_line(t, d);
        let whole = base + line;
        assert(whole.drop_last() == base + d);
        assert(whole.last() == line[line.len() - 1]);
        assert(line[line.len() - 1] != '\n') by {
            if line[line.len() - 1] == '\n' {
                assert(line.contains('\n'));
            }
        }
        let r = split_on(base + d, '\n');
        assert(r.drop_last() == split_on(t, '\n'));
        assert(r.last() == d);
        assert(d.push(line.last()) == line);
        assert(split_on(t, '\n').push(d).drop_last().push(d.push(line.last())) == split_on(
            t,
            '\n',
        ).push(line));
    }
}

/// How one paragraph `p` is written in a style: as a bullet line for
/// Logseq, as a paragraph followed by a blank line otherwise.
pub open spec fn styled_paragraph(p: Seq<char>, style: FormattedOutputStyle) -> Seq<char> {
    match style {
        FormattedOutputStyle::Logseq => "- "@ + p + "\n"@,
        _ => p + "\n\n"@,
    }
}

/// Law: every line of the transcript reaches the document, in order. A
/// further line appended to a transcript appends that line, trimmed, as
/// one more paragraph in the style when it is not blank, and changes
/// nothing when it is blank; a transcript of one line is the bare
/// document followed by that line's paragraph (or nothing, if blank); and
/// the bare document is the heading, after the front matter in every
/// style but plain.
pub proof fn law_every_paragraph_kept(
    t: Seq<char>,
    line: Seq<char>,
    title: Seq<char>,
    style: FormattedOutputStyle,
    meta: NoteMeta,
)
    requires
        !line.contains('\n'),
    ensures
        default_markdown(t + seq!['\n'] + line, title, style, meta) == default_markdown(
            t,
            title,
            style,
            meta,
        ) + if trim(line).len() > 0 {
            styled_paragraph(trim(line), style)
        } else {
            Seq::<char>::empty()
        },
        default_markdown(line, title, style, meta) == default_markdown(
            Seq::<char>::empty(),
            title,
            style,
            meta,
        ) + if trim(line).len() > 0 {
            styled_paragraph(trim(line), style)
        } else {
            Seq::<char>::empty()
        },
        default_markdown(Seq::<char>::empty(), title, style, meta) == if style
            == FormattedOutputStyle::Plain {
            "# "@ + title + "\n\n"@
        } else {
            frontmatter_text(title, meta) + "# "@ + title + "\n\n"@
        },
{
    let head = match style {
        FormattedOutputStyle::Plain => heading_text(title),
        _ => frontmatter_text(title, meta) + heading_text(title),
    };
    let tl = trim(line);
    // Appending a line.
    lemma_split_append_line(t, line);
    let ps = paragraphs(t);
    let lines = split_on(t, '\n');
    assert(lines.push(line).drop_last() == lines);
    assert(lines.push(line).last() == line);
    if tl.len() > 0 {
        assert(paragraphs(t + seq!['\n'] + line) == ps.push(tl));
        assert(ps.push(tl).drop_last() == ps);
        assert(body_text(ps.push(tl), style) == body_text(ps, style) + body_item(tl, style));
    } else {
        assert(paragraphs(t + seq!['\n'] + line) == ps);
    }
    // One line.
    lemma_split_one_line(line);
    let one = seq![line];
    assert(one.drop_last() == Seq::<Seq<char>>::empty());
    assert(one.last() == line);
    assert(split_on(Seq::<char>::empty(), '\n') == seq![Seq::<char>::empty()]);
    reveal_strlit("");
    assert(trim(Seq::<char>::empty()) == Seq::<char>::empty());
    assert(paragraphs(Seq::<char>::empty()) == Seq::<Seq<char>>::empty()) by {
        let e = seq![Seq::<char>::empty()];
        assert(e.drop_last() =~= Seq::<Seq<char>>::empty());
        assert(e.last() == Seq::<char>::empty());
        assert(nonblank_trimmed(e.drop_last()) == Seq::<Seq<char>>::empty());
        assert(trim(e.last()).len() == 0);
    }
    assert(one.drop_last() =~= Seq::<Seq<char>>::empty());
    assert(nonblank_trimmed(one.drop_last()) == Seq::<Seq<char>>::empty());
    if tl.len() > 0 {
        assert(nonblank_trimmed(one) == Seq::<Seq<char>>::empty().push(tl));
        assert(paragraphs(line) =~= seq![tl]);
        assert(seq![tl].drop_last() =~= Seq::<Seq<char>>::empty());
        assert(seq![tl].last() == tl);
        assert(body_text(Seq::<Seq<char>>::empty(), style) == Seq::<char>::empty());
        assert(body_text(seq![tl], style) =~= body_item(tl, style));
    } else {
        assert(paragraphs(line) == Seq::<Seq<char>>::empty());
    }
    assert(head + Seq::<char>::empty() == head);
}

/// Law: the styles share their front matter. An Obsidian document is the
/// front matter followed by the plain document, and a Logseq document
/// starts with the same front matter and heading as the Obsidian one.
pub proof fn law_styles_share_front_matter(
    t: Seq<char>,
    title: Seq<char>,
    meta: NoteMeta,
)
    ensures
        default_markdown(t, title, FormattedOutputStyle::Obsidian, meta) == frontmatter_text(
            title,
            meta,
        ) + default_markdown(t, title, FormattedOutputStyle::Plain, meta),
        default_markdown(t, title, FormattedOutputStyle::Logseq, meta).take(
            (frontmatter_text(title, meta).len() + 4 + title.len()) as int,
        ) == default_markdown(t, title, FormattedOutputStyle::Obsidian, meta).take(
            (frontmatter_text(title, meta).len() + 4 + title.len()) as int,
        ),
{
    reveal_strlit("# ");
    reveal_strlit("\n\n");
    let fm = frontmatter_text(title, meta);
    let h = heading_text(title);
    let n = (fm.len() + 4 + title.len()) as int;
    assert(h.len() == 4 + title.len());
    let ps = paragraphs(t);
    let lo = fm + h + body_text(ps, FormattedOutputStyle::Logseq);
    let ob = fm + h + body_text(ps, FormattedOutputStyle::Obsidian);
    assert(lo.take(n) =~= fm + h);
    assert(ob.take(n) =~= fm + h);
    assert(body_text(ps, FormattedOutputStyle::Obsidian) == body_text(
        ps,
        FormattedOutputStyle::Plain,
    )) by {
        lemma_body_obsidian_plain(ps);
    }
    assert(ob =~= fm + (h + body_text(ps, FormattedOutputStyle::Plain)));
}

/// Obsidian and plain write the paragraphs alike.
proof fn lemma_body_obsidian_plain(ps: Seq<Seq<char>>)
    ensures
        body_text(ps, FormattedOutputStyle::Obsidian) == body_text(ps, FormattedOutputStyle::Plain),
    decreases ps.len(),
{
    if ps.len() > 0 {
        lemma_body_obsidian_plain(ps.drop_last());
    }
}

/// The metadata without a duration.
pub open spec fn without_duration(meta: NoteMeta) -> NoteMeta {
    NoteMeta { date: meta.date, duration: None, language: meta.language, source: meta.source }
}

/// Law: a note's duration is written as the line `duration: <seconds>`
/// in the front matter of every style but plain, just before the tags
/// line, and nowhere else: the document with a duration is the one
/// without it with that line inserted; a plain document does not show it.
pub proof fn law_duration_line(
    t: Seq<char>,
    title: Seq<char>,
    style: FormattedOutputStyle,
    meta: NoteMeta,
    d: AudioDurationSecs,
)
    requires
        meta.duration == Some(d),
    ensures
        style == FormattedOutputStyle::Plain ==> default_markdown(t, title, style, meta)
            == default_markdown(t, title, style, without_duration(meta)),
        style != FormattedOutputStyle::Plain ==> exists|before: Seq<char>, after: Seq<char>|
            {
                &&& default_markdown(t, title, style, without_duration(meta)) == before + after
                &&& default_markdown(t, title, style, meta) == before + ("duration: "@ + decimal(
                    d@ as int,
                ) + "\n"@) + after
                &&& after.take(19) == "tags: [voice-note]\n"@
            },
{
    if style != FormattedOutputStyle::Plain {
        let m0 = without_duration(meta);
        let before = "---\n"@ + "title: \""@ + title + "\"\n"@ + "date: "@ + spec_rfc3339(
            meta.date@.0,
            meta.date@.1,
        ) + "\n"@ + "language: "@ + meta.language@ + "\n"@ + "source: "@ + meta.source@
            + "\n"@;
        let rest = "tags: [voice-note]\n"@ + "---\n\n"@ + heading_text(title) + body_text(
            paragraphs(t),
            style,
        );
        let line = "duration: "@ + decimal(d@ as int) + "\n"@;
        assert(default_markdown(t, title, style, m0) =~= before + rest);
        assert(default_markdown(t, title, style, meta) =~= before + line + rest);
        reveal_strlit("tags: [voice-note]\n");
        assert(rest.take(19) =~= "tags: [voice-note]\n"@);
    }
}

} // verus!
