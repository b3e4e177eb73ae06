//! Transcription by the local `voxtype` program.

use crate::config::ProviderKind;
use crate::error::{fails, AppError, ErrorKind, Result};
use crate::paths;
use crate::text;
use crate::transcription::bounded::{limit_transcript, TRANSCRIPT_MAX_BYTES};
use crate::transcription::TranscriptionResult;
use crate::tree::{parse_toml, toml_parsed, Tree, TreeModel};
use vstd::prelude::*;
use vstd::utf8::{decode_utf8, encode_utf8, valid_utf8};

verus! {

/// How long a transcription may take, in seconds.
pub const TIMEOUT_SECS: u64 = 600;

pub const MEETING_LANGUAGE_FILE: &'static str = "meeting-language";

pub const SNAPSHOT_FILE: &'static str = "voxtype-config.toml";

/// What is transcribed with where there is no configuration of the program.
pub const BUILT_IN_CONFIG: &'static str =
    "engine = \"whisper\"\n[whisper]\nmodel = \"base.en\"\nlanguage = \"auto\"\n";

/// Transcribes with the model that the configuration of the program names.
#[derive(Debug)]
pub struct VoxtypeProvider {
    pub model: String,
}

impl VoxtypeProvider {
    pub fn new(model: String) -> (r: Self)
        ensures
            r.model == model,
    {
        VoxtypeProvider { model }
    }

    pub fn name(&self) -> (r: ProviderKind)
        ensures
            r == ProviderKind::Voxtype,
    {
        ProviderKind::Voxtype
    }
}

/// The language code without space around it, where one is given.
pub open spec fn given_language(language: Option<Seq<char>>) -> Option<Seq<char>> {
    match language {
        Some(code) => if text::is_blank(code) {
            None
        } else {
            Some(text::trimmed(code))
        },
        None => None,
    }
}

pub open spec fn str_view(o: Option<&str>) -> Option<Seq<char>> {
    match o {
        Some(s) => Some(s@),
        None => None,
    }
}

fn language_given(language: Option<&str>) -> (r: Option<String>)
    ensures
        text::text_of(r) == given_language(str_view(language)),
{
    match language {
        Some(code) => {
            let code = text::trim(code);
            if code.as_str().is_empty() {
                None
            } else {
                Some(code)
            }
        },
        None => None,
    }
}

/// Whether a line opens a section.
pub open spec fn is_section() -> spec_fn(Seq<char>) -> bool {
    |line: Seq<char>|
        {
            let t = text::trimmed(line);
            t.len() > 0 && t[0] == '[' && t.last() == ']'
        }
}

/// Whether a line opens the section of an engine.
pub open spec fn opens(engine: Seq<char>) -> spec_fn(Seq<char>) -> bool {
    |line: Seq<char>|
        {
            let t = text::lowered(text::trimmed(line));
            is_section()(line) && (t == text::lowered("["@ + engine + "]"@) || t == text::lowered(
                "[\""@ + engine + "\"]"@,
            ))
        }
}

/// Whether a line without space around it sets the language.
pub open spec fn assigns_language(t: Seq<char>) -> bool {
    let lower = text::lowered(t);
    text::has_prefix(lower, "language"@) && text::has_prefix(
        text::trimmed_start(lower.skip(8)),
        "="@,
    )
}

/// Whether a line sets the language.
pub open spec fn sets_language() -> spec_fn(Seq<char>) -> bool {
    |line: Seq<char>| assigns_language(text::trimmed(line))
}

/// The first line from `from` on that has the property, or the number of lines.
pub open spec fn next_line(
    lines: Seq<Seq<char>>,
    p: spec_fn(Seq<char>) -> bool,
    from: int,
) -> int
    decreases lines.len() - from,
{
    if from >= lines.len() {
        lines.len() as int
    } else if p(lines[from]) {
        from
    } else {
        next_line(lines, p, from + 1)
    }
}

pub open spec fn language_line(language: Seq<char>) -> Seq<char> {
    "language = \""@ + language + "\""@
}

/// The space that a line begins with.
pub open spec fn indent_of(line: Seq<char>) -> Seq<char> {
    line.take(line.len() - text::trimmed_start(line).len())
}

/// The lines with the language of the engine set: where its section sets it already,
/// there; otherwise at the end of the section, or behind its first line where no other
/// follows; otherwise in a new section at the end.
pub open spec fn overridden(
    lines: Seq<Seq<char>>,
    engine: Seq<char>,
    language: Seq<char>,
) -> Seq<Seq<char>> {
    let n = lines.len();
    let section = next_line(lines, opens(engine), 0);
    let line = language_line(language);
    if section >= n {
        let gap = if n > 0 && lines.last().len() > 0 {
            lines.push(Seq::empty())
        } else {
            lines
        };
        gap.push("["@ + engine + "]"@).push(line)
    } else {
        let end = next_line(lines, is_section(), section + 1);
        let set = next_line(lines, sets_language(), section + 1);
        if set < end {
            lines.update(set, indent_of(lines[set]) + line)
        } else if end < n {
            lines.insert(end, line)
        } else {
            lines.insert(section + 1, line)
        }
    }
}

/// The text with the language of the engine set.
pub open spec fn with_language(
    contents: Seq<char>,
    engine: Seq<char>,
    language: Seq<char>,
) -> Seq<char> {
    let body = text::joined(overridden(text::lines_of(contents), engine, language), "\n"@);
    if text::has_suffix(contents, "\n"@) {
        body + "\n"@
    } else {
        body
    }
}

/// Whether a line without space around it sets the language.
pub fn is_language_assignment(trimmed: &str) -> (r: bool)
    ensures
        r == assigns_language(trimmed@),
{
    let lower = text::lowercase(trimmed);
    proof {
        reveal_strlit("language");
    }
    match text::strip_prefix(lower.as_str(), "language") {
        Some(rest) => text::starts_with(text::trim_start(rest.as_str()).as_str(), "="),
        None => false,
    }
}

fn line_is_section(line: &str) -> (r: bool)
    ensures
        r == is_section()(line@),
{
    let t = text::trim(line);
    proof {
        reveal_strlit("[");
        reveal_strlit("]");
    }
    let r = text::starts_with(t.as_str(), "[") && text::ends_with(t.as_str(), "]");
    proof {
        let s = t@;
        if s.len() > 0 {
            assert(s.take(1) =~= seq![s[0]]);
            assert(s.skip(s.len() - 1) =~= seq![s.last()]);
            assert("["@ =~= seq!['[']);
            assert("]"@ =~= seq![']']);
            assert(s.take(1)[0] == s[0]);
            assert(s.skip(s.len() - 1)[0] == s.last());
        }
    }
    r
}

fn line_opens(line: &str, engine: &str) -> (r: bool)
    ensures
        r == opens(engine@)(line@),
{
    let plain = text::concat3("[", engine, "]");
    let quoted = text::concat3("[\"", engine, "\"]");
    let t = text::lowercase(text::trim(line).as_str());
    line_is_section(line) && (text::same(t.as_str(), text::lowercase(plain.as_str()).as_str())
        || text::same(t.as_str(), text::lowercase(quoted.as_str()).as_str()))
}

/// The first line from `from` on that opens the section of the engine.
fn find_opening(lines: &Vec<String>, engine: &str) -> (r: usize)
    ensures
        r == next_line(text::views(lines@), opens(engine@), 0),
        r <= lines@.len(),
{
    let mut i: usize = 0;
    while i < lines.len()
        invariant
            i <= lines@.len(),
            next_line(text::views(lines@), opens(engine@), 0) == next_line(
                text::views(lines@),
                opens(engine@),
                i as int,
            ),
        decreases lines.len() - i,
    {
        if line_opens(lines[i].as_str(), engine) {
            return i;
        }
        i += 1;
    }
    i
}

/// The first line from `from` on that opens a section or, where it comes before that,
/// sets the language. Says which of the two it is.
fn find_end(lines: &Vec<String>, from: usize) -> (r: (usize, bool))
    requires
        from <= lines@.len(),
    ensures
        ({
            let all = text::views(lines@);
            let end = next_line(all, is_section(), from as int);
            let set = next_line(all, sets_language(), from as int);
            if set < end {
                r == (set as usize, true) && from <= set < all.len()
            } else {
                r == (end as usize, false) && from <= end <= all.len()
            }
        }),
{
    let ghost all = text::views(lines@);
    let mut i: usize = from;
    while i < lines.len()
        invariant
            from <= i <= lines@.len(),
            all == text::views(lines@),
            next_line(all, is_section(), from as int) == next_line(all, is_section(), i as int),
            next_line(all, sets_language(), from as int) == next_line(
                all,
                sets_language(),
                i as int,
            ),
        decreases lines.len() - i,
    {
        proof {
            lemma_next_line_bounds(all, is_section(), i + 1);
            lemma_next_line_bounds(all, sets_language(), i + 1);
            lemma_next_line_bounds(all, is_section(), i as int);
            lemma_next_line_bounds(all, sets_language(), i as int);
        }
        if line_is_section(lines[i].as_str()) {
            return (i, false);
        }
        let trimmed = text::trim(lines[i].as_str());
        if is_language_assignment(trimmed.as_str()) {
            return (i, true);
        }
        i += 1;
    }
    (i, false)
}

proof fn lemma_next_line_bounds(lines: Seq<Seq<char>>, p: spec_fn(Seq<char>) -> bool, from: int)
    requires
        0 <= from <= lines.len(),
    ensures
        from <= next_line(lines, p, from) <= lines.len(),
        next_line(lines, p, from) < lines.len() ==> p(lines[next_line(lines, p, from)]),
        forall|k: int|
            from <= k < next_line(lines, p, from) ==> !p(#[trigger] lines[k]),
    decreases lines.len() - from,
{
    if from < lines.len() && !p(lines[from]) {
        lemma_next_line_bounds(lines, p, from + 1);
    }
}

fn indent(line: &str) -> (r: String)
    ensures
        r@ == indent_of(line@),
{
    let v = text::chars_of(line);
    let rest = text::chars_of(text::trim_start(line).as_str());
    proof {
        lemma_trim_start_shortens(line@);
    }
    let to: usize = v.len() - rest.len();
    assert(v@.subrange(0, to as int) =~= indent_of(line@));
    text::string_of(&v, 0, to)
}

proof fn lemma_trim_start_shortens(s: Seq<char>)
    ensures
        text::trimmed_start(s).len() <= s.len(),
    decreases s.len(),
{
    if s.len() > 0 && text::is_white(s[0]) {
        lemma_trim_start_shortens(s.drop_first());
    }
}

fn override_lines(lines: &mut Vec<String>, engine: &str, language: &str)
    ensures
        text::views(final(lines)@) == overridden(text::views(old(lines)@), engine@, language@),
{
    let ghost all = text::views(lines@);
    let line = text::concat3("language = \"", language, "\"");
    let section = find_opening(lines, engine);
    if section >= lines.len() {
        if lines.len() > 0 && !lines[lines.len() - 1].as_str().is_empty() {
            assert(all.last() == lines@.last()@);
            lines.push(String::new());
            assert(text::views(lines@) =~= all.push(Seq::empty()));
        }
        let ghost gap = text::views(lines@);
        let header = text::concat3("[", engine, "]");
        lines.push(header);
        assert(text::views(lines@) =~= gap.push("["@ + engine@ + "]"@));
        let ghost opened = text::views(lines@);
        lines.push(line);
        assert(text::views(lines@) =~= opened.push(language_line(language@)));
        return;
    }
    let (at, set) = find_end(lines, section + 1);
    if set {
        let kept = indent(lines[at].as_str());
        let replaced = text::concat2(kept.as_str(), line.as_str());
        lines[at] = replaced;
        assert(text::views(lines@) =~= all.update(
            at as int,
            indent_of(all[at as int]) + language_line(language@),
        ));
    } else if at < lines.len() {
        lines.insert(at, line);
        assert(text::views(lines@) =~= all.insert(at as int, language_line(language@)));
    } else {
        lines.insert(section + 1, line);
        assert(text::views(lines@) =~= all.insert(section + 1, language_line(language@)));
    }
}

/// Sets the language in the section of the active engine and leaves every other line
/// as it is, so that comments stay.
pub fn apply_language_override(contents: &str, engine: &str, language: &str) -> (r: String)
    ensures
        r@ == with_language(contents@, engine@, language@),
{
    let mut lines = text::lines(contents);
    override_lines(&mut lines, engine, language);
    let body = text::join(&lines, "\n");
    if text::ends_with(contents, "\n") {
        text::concat2(body.as_str(), "\n")
    } else {
        body
    }
}

proof fn lemma_next_line_is(
    lines: Seq<Seq<char>>,
    p: spec_fn(Seq<char>) -> bool,
    from: int,
    k: int,
)
    requires
        0 <= from <= k <= lines.len(),
        k < lines.len() ==> p(lines[k]),
        forall|i: int| from <= i < k ==> !p(#[trigger] lines[i]),
    ensures
        next_line(lines, p, from) == k,
    decreases k - from,
{
    if from < k {
        assert(!p(lines[from]));
        lemma_next_line_is(lines, p, from + 1, k);
    }
}

/// The line that sets the language of the engine.
pub open spec fn effective_line(lines: Seq<Seq<char>>, engine: Seq<char>) -> Option<Seq<char>> {
    let section = next_line(lines, opens(engine), 0);
    let end = next_line(lines, is_section(), section + 1);
    let set = next_line(lines, sets_language(), section + 1);
    if section < lines.len() && set < end {
        Some(text::trimmed(lines[set]))
    } else {
        None
    }
}

/// Space in front of the line that sets a language is no part of it.
proof fn lemma_language_line(space: Seq<char>, language: Seq<char>)
    requires
        forall|i: int| 0 <= i < space.len() ==> text::is_white(#[trigger] space[i]),
    ensures
        text::trimmed(space + language_line(language)) == language_line(language),
        sets_language()(space + language_line(language)),
        !is_section()(space + language_line(language)),
    decreases space.len(),
{
    let line = language_line(language);
    reveal_strlit("language = \"");
    reveal_strlit("\"");
    reveal_strlit("language");
    reveal_strlit("=");
    assert(line[0] == 'l');
    assert(line.last() == '"');
    lemma_leading_space_goes(space, line);
    text::lemma_trimmed_fixed(line);
    let lower = text::lowered(line);
    assert(lower.take(8) =~= "language"@);
    let rest = lower.skip(8);
    assert(rest[0] == ' ' && rest[1] == '=');
    assert(text::trimmed_start(rest) == text::trimmed_start(rest.drop_first()));
    assert(rest.drop_first()[0] == '=');
    assert(text::trimmed_start(rest.drop_first()) == rest.drop_first());
    assert(rest.drop_first().take(1) =~= "="@);
}

proof fn lemma_leading_space_goes(space: Seq<char>, s: Seq<char>)
    requires
        forall|i: int| 0 <= i < space.len() ==> text::is_white(#[trigger] space[i]),
        s.len() > 0,
        !text::is_white(s[0]),
    ensures
        text::trimmed_start(space + s) == text::trimmed_start(s),
    decreases space.len(),
{
    if space.len() == 0 {
        assert(space + s =~= s);
    } else {
        assert((space + s)[0] == space[0]);
        assert((space + s).drop_first() =~= space.drop_first() + s);
        lemma_leading_space_goes(space.drop_first(), s);
    }
}

proof fn lemma_indent_is_white(line: Seq<char>)
    ensures
        forall|i: int|
            0 <= i < indent_of(line).len() ==> text::is_white(#[trigger] indent_of(line)[i]),
    decreases line.len(),
{
    if line.len() > 0 && text::is_white(line[0]) {
        let rest = line.drop_first();
        lemma_indent_is_white(rest);
        lemma_trim_start_shortens(rest);
        assert forall|i: int| 0 <= i < indent_of(line).len() implies text::is_white(
            #[trigger] indent_of(line)[i],
        ) by {
            if i > 0 {
                assert(indent_of(line)[i] == line[i]);
                assert(indent_of(rest)[i - 1] == rest[i - 1]);
            }
        }
    }
}

proof fn lemma_header_opens(engine: Seq<char>)
    ensures
        opens(engine)("["@ + engine + "]"@),
{
    let header = "["@ + engine + "]"@;
    reveal_strlit("[");
    reveal_strlit("]");
    assert(header[0] == '[');
    assert(header.last() == ']');
    text::lemma_trimmed_fixed(header);
}

/// After an override the language of the engine is the one that was asked for, whatever
/// the configuration said before.
pub proof fn law_override_takes_effect(
    lines: Seq<Seq<char>>,
    engine: Seq<char>,
    language: Seq<char>,
)
    ensures
        effective_line(overridden(lines, engine, language), engine) == Some(
            language_line(language),
        ),
{
    let n = lines.len() as int;
    let section = next_line(lines, opens(engine), 0);
    let line = language_line(language);
    let after = overridden(lines, engine, language);
    lemma_next_line_bounds(lines, opens(engine), 0);
    lemma_language_line(Seq::empty(), language);
    assert(Seq::<char>::empty() + line =~= line);
    if section >= n {
        let h = after.len() - 2;
        lemma_header_opens(engine);
        assert(after[h] == "["@ + engine + "]"@);
        assert(after[h + 1] == line);
        assert forall|i: int| 0 <= i < h implies !opens(engine)(#[trigger] after[i]) by {
            if i < n {
                assert(after[i] == lines[i]);
            } else {
                assert(after[i] =~= Seq::empty());
                text::lemma_trimmed_fixed(after[i]);
            }
        }
        lemma_next_line_is(after, opens(engine), 0, h);
        lemma_next_line_is(after, sets_language(), h + 1, h + 1);
        lemma_next_line_is(after, is_section(), h + 1, h + 2);
    } else {
        let end = next_line(lines, is_section(), section + 1);
        let set = next_line(lines, sets_language(), section + 1);
        lemma_next_line_bounds(lines, is_section(), section + 1);
        lemma_next_line_bounds(lines, sets_language(), section + 1);
        let at = if set < end {
            set
        } else if end < n {
            end
        } else {
            section + 1
        };
        if set < end {
            lemma_indent_is_white(lines[set]);
            lemma_language_line(indent_of(lines[set]), language);
        }
        assert forall|i: int| 0 <= i < at implies #[trigger] after[i] == lines[i] by {}
        lemma_next_line_is(after, opens(engine), 0, section);
        lemma_next_line_is(after, sets_language(), section + 1, at);
        assert forall|i: int| section + 1 <= i <= at implies !is_section()(#[trigger] after[i]) by {
            if i < at {
                assert(after[i] == lines[i]);
            }
        }
        lemma_next_line_bounds(after, is_section(), section + 1);
    }
}

/// The line that an override replaces, where there is one.
pub open spec fn replaced_line(lines: Seq<Seq<char>>, engine: Seq<char>) -> Option<int> {
    let section = next_line(lines, opens(engine), 0);
    let end = next_line(lines, is_section(), section + 1);
    let set = next_line(lines, sets_language(), section + 1);
    if section < lines.len() && set < end {
        Some(set)
    } else {
        None
    }
}

/// Where a line stands after an override.
pub open spec fn place_after(lines: Seq<Seq<char>>, engine: Seq<char>, i: int) -> int {
    let n = lines.len();
    let section = next_line(lines, opens(engine), 0);
    let end = next_line(lines, is_section(), section + 1);
    if section >= n || replaced_line(lines, engine) is Some {
        i
    } else if i < if end < n { end } else { section + 1 } {
        i
    } else {
        i + 1
    }
}

/// An override keeps every line but the one that set the language before, comments
/// among them, and keeps their order.
pub proof fn law_override_keeps_other_lines(
    lines: Seq<Seq<char>>,
    engine: Seq<char>,
    language: Seq<char>,
    i: int,
    j: int,
)
    requires
        0 <= i < j < lines.len(),
    ensures
        0 <= place_after(lines, engine, i) < place_after(lines, engine, j) < overridden(
            lines,
            engine,
            language,
        ).len(),
        replaced_line(lines, engine) != Some(i) ==> overridden(
            lines,
            engine,
            language,
        )[place_after(lines, engine, i)] == lines[i],
        replaced_line(lines, engine) != Some(j) ==> overridden(
            lines,
            engine,
            language,
        )[place_after(lines, engine, j)] == lines[j],
{
    let section = next_line(lines, opens(engine), 0);
    lemma_next_line_bounds(lines, opens(engine), 0);
    if section < lines.len() {
        lemma_next_line_bounds(lines, is_section(), section + 1);
        lemma_next_line_bounds(lines, sets_language(), section + 1);
    }
}

/// The space before the line that sets a language is its indent.
proof fn lemma_indent_of_language(space: Seq<char>, language: Seq<char>)
    requires
        forall|i: int| 0 <= i < space.len() ==> text::is_white(#[trigger] space[i]),
    ensures
        indent_of(space + language_line(language)) == space,
{
    let line = language_line(language);
    reveal_strlit("language = \"");
    assert(line[0] == 'l');
    lemma_leading_space_goes(space, line);
    assert(text::trimmed_start(line) == line);
    assert(indent_of(space + line) =~= space);
}

/// Setting the language a second time leaves the lines as they are.
pub proof fn law_overriding_lines_again_changes_nothing(
    lines: Seq<Seq<char>>,
    engine: Seq<char>,
    language: Seq<char>,
)
    ensures
        overridden(overridden(lines, engine, language), engine, language) == overridden(
            lines,
            engine,
            language,
        ),
{
    let n = lines.len() as int;
    let section = next_line(lines, opens(engine), 0);
    let line = language_line(language);
    let after = overridden(lines, engine, language);
    law_override_takes_effect(lines, engine, language);
    lemma_next_line_bounds(lines, opens(engine), 0);
    lemma_language_line(Seq::empty(), language);
    lemma_indent_of_language(Seq::empty(), language);
    assert(Seq::<char>::empty() + line =~= line);
    let now = next_line(after, opens(engine), 0);
    let found = next_line(after, sets_language(), now + 1);
    if section >= n {
        let h = after.len() - 2;
        lemma_header_opens(engine);
        assert(after[h] == "["@ + engine + "]"@);
        assert(after[h + 1] == line);
        assert forall|i: int| 0 <= i < h implies !opens(engine)(#[trigger] after[i]) by {
            if i < n {
                assert(after[i] == lines[i]);
            } else {
                assert(after[i] =~= Seq::empty());
                text::lemma_trimmed_fixed(after[i]);
            }
        }
        lemma_next_line_is(after, opens(engine), 0, h);
        lemma_next_line_is(after, sets_language(), h + 1, h + 1);
        assert(after.update(found, indent_of(after[found]) + line) =~= after);
    } else {
        let end = next_line(lines, is_section(), section + 1);
        let set = next_line(lines, sets_language(), section + 1);
        lemma_next_line_bounds(lines, is_section(), section + 1);
        lemma_next_line_bounds(lines, sets_language(), section + 1);
        let at = if set < end {
            set
        } else if end < n {
            end
        } else {
            section + 1
        };
        if set < end {
            lemma_indent_is_white(lines[set]);
            lemma_language_line(indent_of(lines[set]), language);
            lemma_indent_of_language(indent_of(lines[set]), language);
        }
        assert forall|i: int| 0 <= i < at implies #[trigger] after[i] == lines[i] by {}
        lemma_next_line_is(after, opens(engine), 0, section);
        lemma_next_line_is(after, sets_language(), section + 1, at);
        assert(after.update(found, indent_of(after[found]) + line) =~= after);
    }
}

proof fn lemma_overridden_lines_are_plain(
    lines: Seq<Seq<char>>,
    engine: Seq<char>,
    language: Seq<char>,
    ended: bool,
)
    requires
        forall|i: int| 0 <= i < lines.len() ==> text::is_plain_line(#[trigger] lines[i]),
        lines.len() > 0 && !ended ==> lines.last().len() > 0,
        !engine.contains('\n'),
        !language.contains('\n'),
    ensures
        overridden(lines, engine, language).len() > 0,
        forall|i: int|
            0 <= i < overridden(lines, engine, language).len() ==> text::is_plain_line(
                #[trigger] overridden(lines, engine, language)[i],
            ),
        ended || overridden(lines, engine, language).last().len() > 0,
{
    let after = overridden(lines, engine, language);
    let line = language_line(language);
    let header = "["@ + engine + "]"@;
    let section = next_line(lines, opens(engine), 0);
    reveal_strlit("language = \"");
    reveal_strlit("\"");
    reveal_strlit("[");
    reveal_strlit("]");
    assert(line.last() == '"' && header.last() == ']');
    assert(text::is_plain_line(line)) by {
        if line.contains('\n') {
            let i = choose|i: int| 0 <= i < line.len() && line[i] == '\n';
            let front = "language = \""@.len() as int;
            if front <= i < front + language.len() {
                assert(language[i - front] == '\n');
            }
        }
    }
    assert(text::is_plain_line(header)) by {
        if header.contains('\n') {
            let i = choose|i: int| 0 <= i < header.len() && header[i] == '\n';
            if 1 <= i < 1 + engine.len() {
                assert(engine[i - 1] == '\n');
            }
        }
    }
    lemma_next_line_bounds(lines, opens(engine), 0);
    if section < lines.len() {
        lemma_next_line_bounds(lines, is_section(), section + 1);
        lemma_next_line_bounds(lines, sets_language(), section + 1);
        let end = next_line(lines, is_section(), section + 1);
        let set = next_line(lines, sets_language(), section + 1);
        if set < end {
            let indent = indent_of(lines[set]);
            lemma_trim_start_shortens(lines[set]);
            assert(text::is_plain_line(lines[set]));
            assert(text::is_plain_line(indent + line)) by {
                assert((indent + line).last() == '"');
                if (indent + line).contains('\n') {
                    let i = choose|i: int|
                        0 <= i < (indent + line).len() && (indent + line)[i] == '\n';
                    if i < indent.len() {
                        assert(indent[i] == '\n');
                        assert(lines[set][i] == '\n');
                    } else {
                        assert(line[i - indent.len()] == '\n');
                    }
                }
            }
        } else {
            let at = if end < lines.len() {
                end
            } else {
                section + 1
            };
            assert forall|i: int| 0 <= i < after.len() implies text::is_plain_line(
                #[trigger] after[i],
            ) by {
                if i < at {
                    assert(after[i] == lines[i]);
                } else if i > at {
                    assert(after[i] == lines[i - 1]);
                }
            }
        }
    } else {
        assert forall|i: int| 0 <= i < after.len() implies text::is_plain_line(
            #[trigger] after[i],
        ) by {
            if i < lines.len() {
                assert(after[i] == lines[i]);
            }
        }
    }
}

/// Setting the language leaves the text otherwise as it is: its lines are those of the
/// text with the language set, it ends with a line break where the text did, and setting
/// the language again changes nothing. Texts in which a line ends with a carriage return
/// that belongs to no line break are left out.
pub proof fn law_overriding_again_changes_nothing(
    contents: Seq<char>,
    engine: Seq<char>,
    language: Seq<char>,
)
    requires
        !engine.contains('\n'),
        !language.contains('\n'),
        forall|i: int|
            0 <= i < text::lines_of(contents).len() ==> text::is_plain_line(
                #[trigger] text::lines_of(contents)[i],
            ),
    ensures
        text::lines_of(with_language(contents, engine, language)) == overridden(
            text::lines_of(contents),
            engine,
            language,
        ),
        text::has_suffix(with_language(contents, engine, language), "\n"@) == text::has_suffix(
            contents,
            "\n"@,
        ),
        with_language(with_language(contents, engine, language), engine, language)
            == with_language(contents, engine, language),
{
    let lines = text::lines_of(contents);
    let ended = text::has_suffix(contents, "\n"@);
    reveal_strlit("\n");
    text::lemma_lines_hold_no_break(contents);
    if contents.len() > 0 && !ended {
        assert(contents.last() != '\n') by {
            if contents.last() == '\n' {
                assert(contents.skip(contents.len() - 1) =~= "\n"@);
            }
        }
    }
    lemma_overridden_lines_are_plain(lines, engine, language, ended);
    let after = overridden(lines, engine, language);
    text::lemma_joined_lines(after, ended);
    let once = with_language(contents, engine, language);
    assert(once =~= text::joined(after, "\n"@) + if ended {
        "\n"@
    } else {
        Seq::empty()
    });
    law_overriding_lines_again_changes_nothing(lines, engine, language);
}

/// What is known of the configuration file of the program.
#[derive(Debug)]
pub enum ConfigFile {
    Bytes(Vec<u8>),
    Missing,
    TooLarge,
    Unreadable(String),
}

/// The configuration that is used, or why there is none.
pub open spec fn config_text(source: Seq<char>, file: ConfigFile) -> std::result::Result<
    Seq<char>,
    Seq<char>,
> {
    match file {
        ConfigFile::Bytes(bytes) => if valid_utf8(bytes@) {
            Ok(decode_utf8(bytes@))
        } else {
            Err(
                "Voxtype config "@ + source + " was not valid UTF-8: "@ + text::utf8_error(bytes@),
            )
        },
        ConfigFile::Missing => Ok(BUILT_IN_CONFIG@),
        ConfigFile::TooLarge => Err(
            "Voxtype config "@ + source + " exceeds the 1048576 byte limit"@,
        ),
        ConfigFile::Unreadable(e) => Err("could not read Voxtype config "@ + source + ": "@ + e@),
    }
}

/// Whether an engine works on this machine alone.
pub open spec fn is_local_engine(engine: Seq<char>) -> bool {
    ||| engine == "whisper"@
    ||| engine == "parakeet"@
    ||| engine == "moonshine"@
    ||| engine == "sensevoice"@
    ||| engine == "paraformer"@
    ||| engine == "dolphin"@
    ||| engine == "omnilingual"@
    ||| engine == "cohere"@
}

fn local_engine(engine: &str) -> (r: bool)
    ensures
        r == is_local_engine(engine@),
{
    text::same(engine, "whisper") || text::same(engine, "parakeet") || text::same(
        engine,
        "moonshine",
    ) || text::same(engine, "sensevoice") || text::same(engine, "paraformer") || text::same(
        engine,
        "dolphin",
    ) || text::same(engine, "omnilingual") || text::same(engine, "cohere")
}

pub open spec fn engine_of(config: TreeModel) -> Seq<char> {
    match config.text_field("engine"@) {
        Some(engine) => engine,
        None => "whisper"@,
    }
}

/// The model that a section of the configuration names.
pub open spec fn section_model(config: TreeModel, section: Seq<char>) -> Option<Seq<char>> {
    match config.field(section) {
        Some(fields) => fields.text_field("model"@),
        None => None,
    }
}

/// The model of the engine: that of its section, that of `whisper`, or the one that is
/// configured elsewhere.
pub open spec fn model_of(config: TreeModel, engine: Seq<char>) -> Seq<char> {
    match section_model(config, engine) {
        Some(model) => model,
        None => match section_model(config, "whisper"@) {
            Some(model) => model,
            None => "configured"@,
        },
    }
}

fn model_in(config: &Tree, section: &str) -> (r: Option<String>)
    ensures
        text::text_of(r) == section_model(config@, section@),
{
    match config.get(section) {
        Some(fields) => match fields.get_text("model") {
            Some(model) => Some(model.to_owned()),
            None => None,
        },
        None => None,
    }
}

/// What is kept of the configuration for a meeting: the text, with the language of the
/// meeting set in it, that language, and engine and model as a label.
#[derive(Debug)]
pub struct Snapshot {
    pub contents: String,
    pub language: Option<String>,
    pub label: String,
}

/// What is kept of a configuration that was read and parsed.
pub fn snapshot_of_config(
    contents: String,
    parsed: std::result::Result<Tree, String>,
    language: Option<&str>,
) -> (r: Result<Snapshot>)
    ensures
        match parsed {
            Err(e) => fails(r, ErrorKind::Config, "invalid Voxtype config: "@ + e@),
            Ok(config) => {
                let engine = engine_of(config@);
                if !is_local_engine(engine) {
                    fails(
                        r,
                        ErrorKind::Config,
                        "Voxtype engine '"@ + engine
                            + "' is not a supported local transcription engine"@,
                    )
                } else {
                    r matches Ok(kept) && kept.label@ == engine + ":"@ + model_of(config@, engine)
                        && text::text_of(kept.language) == given_language(str_view(language))
                        && kept.contents@ == match given_language(str_view(language)) {
                        Some(code) => with_language(contents@, engine, code),
                        None => contents@,
                    }
                }
            },
        },
{
    let config = match parsed {
        Ok(config) => config,
        Err(e) => {
            let message = text::concat2("invalid Voxtype config: ", e.as_str());
            return Err(AppError::config(message.as_str()));
        },
    };
    let engine = match config.get_text("engine") {
        Some(engine) => engine.to_owned(),
        None => "whisper".to_owned(),
    };
    if !local_engine(engine.as_str()) {
        let message = text::concat3(
            "Voxtype engine '",
            engine.as_str(),
            "' is not a supported local transcription engine",
        );
        return Err(AppError::config(message.as_str()));
    }
    let model = match model_in(&config, engine.as_str()) {
        Some(model) => model,
        None => match model_in(&config, "whisper") {
            Some(model) => model,
            None => "configured".to_owned(),
        },
    };
    let language = language_given(language);
    let kept = match &language {
        Some(code) => apply_language_override(contents.as_str(), engine.as_str(), code.as_str()),
        None => contents,
    };
    let label = text::concat3(engine.as_str(), ":", model.as_str());
    Ok(Snapshot { contents: kept, language, label })
}

/// What is kept of the configuration of the program for a meeting. `source` is the path
/// of its file, `file` what is known of it.
pub fn snapshot_config(source: &str, file: ConfigFile, language: Option<&str>) -> (r: Result<
    Snapshot,
>)
    ensures
        match config_text(source@, file) {
            Err(message) => fails(r, ErrorKind::Config, message),
            Ok(contents) => match toml_parsed(contents) {
                Err(e) => fails(r, ErrorKind::Config, "invalid Voxtype config: "@ + e),
                Ok(config) => {
                    let engine = engine_of(config);
                    if !is_local_engine(engine) {
                        fails(
                            r,
                            ErrorKind::Config,
                            "Voxtype engine '"@ + engine
                                + "' is not a supported local transcription engine"@,
                        )
                    } else {
                        r matches Ok(kept) && kept.label@ == engine + ":"@ + model_of(
                            config,
                            engine,
                        ) && text::text_of(kept.language) == given_language(str_view(language))
                            && kept.contents@ == match given_language(str_view(language)) {
                            Some(code) => with_language(contents, engine, code),
                            None => contents,
                        }
                    }
                },
            },
        },
{
    let contents = match file {
        ConfigFile::Bytes(bytes) => match text::utf8_text(bytes.as_slice()) {
            Ok(contents) => contents,
            Err(e) => {
                let message = text::concat4(
                    "Voxtype config ",
                    source,
                    " was not valid UTF-8: ",
                    e.as_str(),
                );
                return Err(AppError::config(message.as_str()));
            },
        },
        ConfigFile::Missing => BUILT_IN_CONFIG.to_owned(),
        ConfigFile::TooLarge => {
            let message = text::concat3(
                "Voxtype config ",
                source,
                " exceeds the 1048576 byte limit",
            );
            return Err(AppError::config(message.as_str()));
        },
        ConfigFile::Unreadable(e) => {
            let message = text::concat4("could not read Voxtype config ", source, ": ", e.as_str());
            return Err(AppError::config(message.as_str()));
        },
    };
    let parsed = parse_toml(contents.as_str());
    snapshot_of_config(contents, parsed, language)
}

/// The language that was kept for a meeting. `bytes` is what its file holds, where it is
/// there and no longer than a language code can be.
pub fn read_meeting_language(bytes: Option<&Vec<u8>>) -> (r: Option<String>)
    ensures
        text::text_of(r) == match bytes {
            Some(b) => if valid_utf8(b@) {
                given_language(Some(decode_utf8(b@)))
            } else {
                None
            },
            None => None,
        },
{
    match bytes {
        Some(b) => match text::utf8_text(b.as_slice()) {
            Ok(code) => language_given(Some(code.as_str())),
            Err(_) => None,
        },
        None => None,
    }
}

/// The arguments of the program.
pub open spec fn transcribe_args(
    snapshot: Seq<char>,
    wav: Seq<char>,
    language: Option<Seq<char>>,
) -> Seq<Seq<char>> {
    match given_language(language) {
        Some(code) => seq!["-c"@, snapshot, "--language"@, code, "transcribe"@, wav],
        None => seq!["-c"@, snapshot, "transcribe"@, wav],
    }
}

/// The arguments of the program: the language stands before the command.
pub fn voxtype_transcribe_args(snapshot: &str, wav: &str, language: Option<&str>) -> (r: Vec<
    String,
>)
    ensures
        text::views(r@) == transcribe_args(snapshot@, wav@, str_view(language)),
{
    let mut args: Vec<String> = Vec::new();
    args.push("-c".to_owned());
    args.push(snapshot.to_owned());
    if let Some(code) = language_given(language) {
        args.push("--language".to_owned());
        args.push(code);
    }
    args.push("transcribe".to_owned());
    args.push(wav.to_owned());
    assert(text::views(args@) =~= transcribe_args(snapshot@, wav@, str_view(language)));
    args
}

/// The directory of the session that a chunk lies in: three levels up.
pub open spec fn session_dir_of(path: Seq<char>) -> Option<Seq<char>> {
    match paths::parent_of(path) {
        Some(a) => match paths::parent_of(a) {
            Some(b) => paths::parent_of(b),
            None => None,
        },
        None => None,
    }
}

pub fn session_dir_from_chunk(path: &str) -> (r: Result<String>)
    ensures
        match session_dir_of(path@) {
            Some(dir) => r matches Ok(d) && d@ == dir,
            None => fails(r, ErrorKind::Transcription, "invalid meeting audio path"@),
        },
{
    if let Some(a) = paths::parent(path) {
        if let Some(b) = paths::parent(a.as_str()) {
            if let Some(dir) = paths::parent(b.as_str()) {
                return Ok(dir);
            }
        }
    }
    Err(AppError::transcription("invalid meeting audio path"))
}

/// The first line behind the last blank one.
pub open spec fn block_start(lines: Seq<Seq<char>>) -> int
    decreases lines.len(),
{
    if lines.len() == 0 {
        0
    } else if text::is_blank(lines.last()) {
        lines.len() as int
    } else {
        block_start(lines.drop_last())
    }
}

/// The transcript in what the program wrote: the last block of lines.
pub open spec fn last_block(output: Seq<char>) -> Seq<char> {
    let lines = text::lines_of(output);
    text::trimmed(text::joined(lines.skip(block_start(lines)), "\n"@))
}

/// The transcript in what the program wrote: the last block of lines.
pub fn parse_output(output: &str) -> (r: String)
    ensures
        r@ == last_block(output@),
{
    let lines = text::lines(output);
    let ghost all = text::views(lines@);
    let mut start: usize = lines.len();
    assert(all.take(start as int) =~= all);
    while start > 0 && !text::blank(lines[start - 1].as_str())
        invariant
            start <= lines@.len(),
            all == text::views(lines@),
            block_start(all) == block_start(all.take(start as int)),
        decreases start,
    {
        assert(all.take(start as int).drop_last() =~= all.take(start - 1));
        assert(all.take(start as int).last() == lines@[start - 1]@);
        start -= 1;
    }
    proof {
        if start > 0 {
            assert(all.take(start as int).last() == lines@[start - 1]@);
        }
        assert(block_start(all) == start);
    }
    let block = text::join_from(&lines, start, "\n");
    text::trim(block.as_str())
}

/// How a run of the program ended.
#[derive(Debug)]
pub struct ProgramOutput {
    pub success: bool,
    pub status: String,
    pub stdout: Vec<u8>,
    pub stderr: Vec<u8>,
}

impl VoxtypeProvider {
    /// What a run of the program gives: the transcript, or why it failed.
    pub fn result_of(&self, output: &ProgramOutput) -> (r: Result<TranscriptionResult>)
        ensures
            if !output.success {
                let said = text::trimmed(text::lossy(output.stderr@));
                fails(
                    r,
                    ErrorKind::Transcription,
                    if said.len() == 0 {
                        "voxtype exited with "@ + output.status@
                    } else {
                        said
                    },
                )
            } else {
                let words = last_block(text::lossy(output.stdout@));
                if encode_utf8(words).len() > TRANSCRIPT_MAX_BYTES {
                    fails(
                        r,
                        ErrorKind::Transcription,
                        "transcript exceeds the configured byte limit"@,
                    )
                } else {
                    r matches Ok(t) && t.text@ == words && t.provider == ProviderKind::Voxtype
                        && t.model == self.model && t.provider_metadata is None
                }
            },
    {
        if !output.success {
            let said = text::trim(text::lossy_text(output.stderr.as_slice()).as_str());
            if said.as_str().is_empty() {
                let message = text::concat2("voxtype exited with ", output.status.as_str());
                return Err(AppError::transcription(message.as_str()));
            }
            return Err(AppError::transcription(said.as_str()));
        }
        let words = parse_output(text::lossy_text(output.stdout.as_slice()).as_str());
        match limit_transcript(words) {
            Ok(text) => Ok(
                TranscriptionResult {
                    text,
                    provider: ProviderKind::Voxtype,
                    model: self.model.clone(),
                    provider_metadata: None,
                },
            ),
            Err(e) => Err(e),
        }
    }
}

/// Refuses to transcribe without the configuration that was kept for the meeting.
pub fn check_snapshot(path: &str, is_file: bool) -> (r: Result<()>)
    ensures
        if is_file {
            r is Ok
        } else {
            fails(
                r,
                ErrorKind::Transcription,
                "Voxtype configuration snapshot is missing at "@ + path@,
            )
        },
{
    if is_file {
        Ok(())
    } else {
        let message = text::concat2("Voxtype configuration snapshot is missing at ", path);
        Err(AppError::transcription(message.as_str()))
    }
}

/// The language that was kept for a meeting, on a line of its own, is read back.
pub proof fn law_meeting_language_round_trip(asked: Option<Seq<char>>, code: Seq<char>)
    requires
        given_language(asked) == Some(code),
    ensures
        given_language(Some(code + "\n"@)) == Some(code),
{
    let line = code + "\n"@;
    reveal_strlit("\n");
    text::lemma_trimmed_ends(asked->0);
    assert(line[0] == code[0]);
    assert(text::trimmed_start(line) == line);
    assert(line.last() == '\n');
    assert(text::is_white('\n'));
    assert(line.drop_last() =~= code);
    assert(text::trimmed_end(line) == text::trimmed_end(code));
}

/// A language that is given is used without space around it; blank counts as none.
pub proof fn law_a_given_language_is_used(language: Option<Seq<char>>)
    ensures
        language is None ==> given_language(language) is None,
        language matches Some(code) ==> {
            &&& given_language(language) is None <==> text::is_blank(code)
            &&& given_language(language) matches Some(used) ==> used == text::trimmed(code)
        },
{
}

/// How the program is called: with the settings that were kept for the meeting, its
/// language where one is given, and the audio.
pub proof fn law_how_the_program_is_called(
    snapshot: Seq<char>,
    wav: Seq<char>,
    language: Seq<char>,
)
    ensures
        transcribe_args(snapshot, wav, None) == seq!["-c"@, snapshot, "transcribe"@, wav],
        !text::is_blank(language) ==> transcribe_args(snapshot, wav, Some(language)) == seq![
            "-c"@,
            snapshot,
            "--language"@,
            text::trimmed(language),
            "transcribe"@,
            wav,
        ],
        text::is_blank(language) ==> transcribe_args(snapshot, wav, Some(language)) == seq![
            "-c"@,
            snapshot,
            "transcribe"@,
            wav,
        ],
{
}

/// Which engines work on this machine alone.
pub proof fn law_local_engines(engine: Seq<char>)
    ensures
        is_local_engine(engine) <==> seq![
            "whisper"@,
            "parakeet"@,
            "moonshine"@,
            "sensevoice"@,
            "paraformer"@,
            "dolphin"@,
            "omnilingual"@,
            "cohere"@,
        ].contains(engine),
{
    let all = seq![
        "whisper"@,
        "parakeet"@,
        "moonshine"@,
        "sensevoice"@,
        "paraformer"@,
        "dolphin"@,
        "omnilingual"@,
        "cohere"@,
    ];
    assert(all[0] == "whisper"@ && all[1] == "parakeet"@ && all[2] == "moonshine"@);
    assert(all[3] == "sensevoice"@ && all[4] == "paraformer"@ && all[5] == "dolphin"@);
    assert(all[6] == "omnilingual"@ && all[7] == "cohere"@);
}

/// The engine is the one that the settings name, or whisper; its model is that of its own
/// section, or else that of whisper.
pub proof fn law_the_engine_and_its_model(config: TreeModel, engine: Seq<char>)
    ensures
        engine_of(config) == match config.text_field("engine"@) {
            Some(named) => named,
            None => "whisper"@,
        },
        config.field(engine) matches Some(own) ==> (own.text_field("model"@) matches Some(model)
            ==> model_of(config, engine) == model),
        (config.field(engine) matches Some(own) ==> own.text_field("model"@) is None) ==> (
        config.field("whisper"@) matches Some(whisper) ==> (whisper.text_field("model"@) matches Some(
            model,
        ) ==> model_of(config, engine) == model)),
        (config.field(engine) matches Some(own) ==> own.text_field("model"@) is None) && (
        config.field("whisper"@) matches Some(whisper) ==> whisper.text_field("model"@) is None)
            ==> model_of(config, engine) == "configured"@,
{
}

proof fn lemma_block_start(lines: Seq<Seq<char>>, k: int)
    requires
        0 <= k <= lines.len(),
        k > 0 ==> text::is_blank(lines[k - 1]),
        forall|i: int| k <= i < lines.len() ==> !text::is_blank(#[trigger] lines[i]),
    ensures
        block_start(lines) == k,
    decreases lines.len(),
{
    if lines.len() > k {
        assert(lines.last() == lines[lines.len() - 1]);
        lemma_block_start(lines.drop_last(), k);
    }
}

/// The transcript is what the program wrote after its last blank line, or all of it where
/// there is none, without space around it.
pub proof fn law_the_transcript_is_the_last_block(output: Seq<char>, k: int)
    requires
        0 <= k <= text::lines_of(output).len(),
        k > 0 ==> text::is_blank(text::lines_of(output)[k - 1]),
        forall|i: int|
            k <= i < text::lines_of(output).len() ==> !text::is_blank(
                #[trigger] text::lines_of(output)[i],
            ),
    ensures
        last_block(output) == text::trimmed(
            text::joined(text::lines_of(output).skip(k), "\n"@),
        ),
{
    lemma_block_start(text::lines_of(output), k);
}

/// The line that sets a language.
pub proof fn law_a_language_is_set_by_a_line(language: Seq<char>, before: Seq<char>)
    requires
        forall|i: int| 0 <= i < before.len() ==> #[trigger] before[i] == ' ',
    ensures
        language_line(language) == "language = \""@ + language + "\""@,
        assigns_language("language"@ + before + "="@ + language),
        !assigns_language("languages"@ + before + "="@ + language),
        !assigns_language("# language"@ + before + "="@ + language),
{
    reveal_strlit("language");
    reveal_strlit("languages");
    reveal_strlit("# language");
    reveal_strlit("=");
    let a = "language"@ + before + "="@ + language;
    let la = text::lowered(a);
    assert(text::has_prefix(la, "language"@)) by {
        assert(la.take(8) =~= "language"@);
    }
    let rest = la.skip(8);
    let n = before.len() as int;
    assert(rest.len() == n + 1 + language.len());
    assert(rest[n] == '=');
    assert forall|i: int| 0 <= i < n implies text::is_white(#[trigger] rest[i]) by {
        assert(rest[i] == text::lower_char(a[8 + i]));
        assert(a[8 + i] == before[i]);
    }
    lemma_spaces_go(rest, n);
    assert(rest.skip(n).take(1) =~= "="@);
    let b = "languages"@ + before + "="@ + language;
    let lb = text::lowered(b);
    assert(lb.skip(8)[0] == lb[8]);
    assert(lb[8] == text::lower_char('s'));
    assert(lb.skip(8)[0] == 's');
    assert(text::trimmed_start(lb.skip(8)) == lb.skip(8));
    assert(!text::has_prefix(lb.skip(8), "="@)) by {
        assert(lb.skip(8).take(1)[0] == 's');
    }
    let c = "# language"@ + before + "="@ + language;
    let lc = text::lowered(c);
    assert(lc[0] == '#');
    assert(!text::has_prefix(lc, "language"@)) by {
        assert(lc.take(8)[0] == '#');
    }
}

proof fn lemma_spaces_go(s: Seq<char>, n: int)
    requires
        0 <= n < s.len(),
        forall|i: int| 0 <= i < n ==> text::is_white(#[trigger] s[i]),
        !text::is_white(s[n]),
    ensures
        text::trimmed_start(s) == s.skip(n),
    decreases n,
{
    if n > 0 {
        assert(text::is_white(s[0]));
        let rest = s.drop_first();
        assert forall|i: int| 0 <= i < n - 1 implies text::is_white(#[trigger] rest[i]) by {
            assert(rest[i] == s[i + 1]);
        }
        assert(rest[n - 1] == s[n]);
        lemma_spaces_go(rest, n - 1);
        assert(rest.skip(n - 1) =~= s.skip(n));
    } else {
        assert(s.skip(0) =~= s);
    }
}

/// A chunk lies in the audio directory of its source, and that in the directory of its
/// session.
pub proof fn law_the_session_of_a_chunk(dir: Seq<char>, source: Seq<char>, name: Seq<char>)
    requires
        dir.len() > 1,
        dir.last() != '/',
        dir.last() != '.',
        source == "mic"@ || source == "system"@,
        name.len() > 1,
        name.last() != '/',
        name.last() != '.',
        !name.contains('/'),
    ensures
        session_dir_of(dir + "/audio/"@ + source + "/"@ + name) == Some(dir),
{
    reveal_strlit("/audio/");
    reveal_strlit("audio");
    reveal_strlit("/");
    reveal_strlit("mic");
    reveal_strlit("system");
    let audio = dir + "/"@ + "audio"@;
    let below = audio + "/"@ + source;
    let path = below + "/"@ + name;
    assert(path =~= dir + "/audio/"@ + source + "/"@ + name);
    assert(!"audio"@.contains('/'));
    assert(!source.contains('/'));
    paths::law_the_parent_of_a_path(below, name);
    paths::law_the_parent_of_a_path(audio, source);
    paths::law_the_parent_of_a_path(dir, "audio"@);
}

/// The settings of the program are read from its file, and are the built-in ones where it
/// has none. A file that cannot be read is no such file.
pub proof fn law_which_settings_the_program_gets(source: Seq<char>, bytes: Vec<u8>, why: String)
    ensures
        valid_utf8(bytes@) ==> config_text(source, ConfigFile::Bytes(bytes)) == Ok::<
            Seq<char>,
            Seq<char>,
        >(decode_utf8(bytes@)),
        !valid_utf8(bytes@) ==> config_text(source, ConfigFile::Bytes(bytes)) is Err,
        config_text(source, ConfigFile::Missing) == Ok::<Seq<char>, Seq<char>>(BUILT_IN_CONFIG@),
        config_text(source, ConfigFile::TooLarge) is Err,
        config_text(source, ConfigFile::Unreadable(why)) == Err::<Seq<char>, Seq<char>>(
            "could not read Voxtype config "@ + source + ": "@ + why@,
        ),
{
}

} // verus!
