//! The gemtext document format: line values, parse errors, and the
//! line-oriented parser that turns a body into a structured document.

use vstd::prelude::*;
use crate::resolve::{url_join_model, url_parse_model, url_join_relative, url_parse_absolute};
use crate::text::{
    chars_to_string, find_char_from, is_space, lemma_find_char_found, scan_spaces,
    spec_find_char, spec_starts_with, spec_trim, spec_trim_start, starts_with_chars,
    str_to_chars, subvec, trim_range, view_opt_string,
};

verus! {

/// One structured line of a gemtext document.
///
/// A `Link` always carries a fully resolved, absolute URL in its
/// serialization, never a bare relative path: resolution against the
/// document's base URL happens during parsing.
#[derive(Debug, Clone, PartialEq, Eq)]
pub enum Line {
    Text(String),
    Link { url: String, description: Option<String> },
    Heading { text: String, depth: usize },
    ListItem(String),
    Quote(String),
    PreformatToggleOn,
    PreformatToggleOff,
}

/// The mathematical value of a [`Line`].
pub enum LineModel {
    Text(Seq<char>),
    Link { url: Seq<char>, description: Option<Seq<char>> },
    Heading { text: Seq<char>, depth: int },
    ListItem(Seq<char>),
    Quote(Seq<char>),
    PreformatToggleOn,
    PreformatToggleOff,
}

impl View for Line {
    type V = LineModel;

    open spec fn view(&self) -> LineModel {
        match self {
            Line::Text(s) => LineModel::Text(s@),
            Line::Link { url, description } => LineModel::Link {
                url: url@,
                description: view_opt_string(*description),
            },
            Line::Heading { text, depth } => LineModel::Heading {
                text: text@,
                depth: *depth as int,
            },
            Line::ListItem(s) => LineModel::ListItem(s@),
            Line::Quote(s) => LineModel::Quote(s@),
            Line::PreformatToggleOn => LineModel::PreformatToggleOn,
            Line::PreformatToggleOff => LineModel::PreformatToggleOff,
        }
    }
}

/// An ordered gemtext document; the order is the document's visual order.
#[derive(Debug, Clone, PartialEq, Eq)]
pub struct GemTextBody(pub Vec<Line>);

impl View for GemTextBody {
    type V = Seq<LineModel>;

    open spec fn view(&self) -> Seq<LineModel> {
        self.0@.map_values(|l: Line| l@)
    }
}

/// Why a gemtext body failed to parse.
#[derive(Debug, Clone, PartialEq, Eq)]
pub enum GemTextErrorKind {
    /// A link line held no URL token after its `=>` marker.
    LinkLineMissingUrl,
    /// A link's URL text neither parsed as an absolute URL nor joined
    /// against the base URL; the payload is the offending URL text.
    InvalidUrl(String),
}

/// The mathematical value of a [`GemTextErrorKind`].
pub enum GemTextErrorKindModel {
    LinkLineMissingUrl,
    InvalidUrl(Seq<char>),
}

impl View for GemTextErrorKind {
    type V = GemTextErrorKindModel;

    open spec fn view(&self) -> GemTextErrorKindModel {
        match self {
            GemTextErrorKind::LinkLineMissingUrl => GemTextErrorKindModel::LinkLineMissingUrl,
            GemTextErrorKind::InvalidUrl(s) => GemTextErrorKindModel::InvalidUrl(s@),
        }
    }
}

/// A gemtext parse error with the 1-based body line where it was detected.
#[derive(Debug, Clone, PartialEq, Eq)]
pub struct GemTextError {
    pub line: usize,
    pub kind: GemTextErrorKind,
}

/// The mathematical value of a [`GemTextError`].
pub struct GemTextErrorModel {
    pub line: int,
    pub kind: GemTextErrorKindModel,
}

impl View for GemTextError {
    type V = GemTextErrorModel;

    open spec fn view(&self) -> GemTextErrorModel {
        GemTextErrorModel { line: self.line as int, kind: self.kind@ }
    }
}

/// The two parsing modes of the gemtext line classifier.
///
/// `Normal` is the initial mode; a ```` ``` ```` line flips the mode, and in
/// `Preformat` mode every other line is taken literally as text.
#[derive(Debug, Clone, Copy, PartialEq, Eq, Structural)]
pub enum ParserMode {
    Normal,
    Preformat,
}

/// The `=>` marker that opens a link line.
pub open spec fn link_marker() -> Seq<char> {
    seq!['=', '>']
}

/// The ``` marker that toggles preformatted mode.
pub open spec fn pre_marker() -> Seq<char> {
    seq!['`', '`', '`']
}

/// The physical lines of a body, as `str::lines` cuts them: split at every
/// `\n`, with one `\r` directly before the `\n` removed, and no final empty
/// piece when the body ends in a line ending.
pub open spec fn spec_lines(s: Seq<char>) -> Seq<Seq<char>>
    decreases s.len(),
    via spec_lines_decreases
{
    if s.len() == 0 {
        Seq::empty()
    } else {
        match spec_find_char(s, '\n') {
            None => seq![s],
            Some(i) => {
                let piece = if i > 0 && s[i - 1] == '\r' {
                    s.take(i - 1)
                } else {
                    s.take(i)
                };
                seq![piece] + spec_lines(s.skip(i + 1))
            },
        }
    }
}

#[via_fn]
proof fn spec_lines_decreases(s: Seq<char>) {
    if s.len() > 0 {
        lemma_find_char_found(s, '\n');
    }
}

/// A body has no more lines than characters.
pub proof fn lemma_spec_lines_count(s: Seq<char>)
    ensures
        spec_lines(s).len() <= s.len(),
    decreases s.len(),
{
    if s.len() > 0 {
        lemma_find_char_found(s, '\n');
        match spec_find_char(s, '\n') {
            Some(i) => lemma_spec_lines_count(s.skip(i + 1)),
            None => {},
        }
    }
}

/// The index of the first space or tab in `s`, the separators a link line
/// recognises between its URL token and its description.
pub open spec fn spec_find_wsp(s: Seq<char>) -> Option<int>
    decreases s.len(),
{
    if s.len() == 0 {
        None
    } else if s[0] == ' ' || s[0] == '\t' {
        Some(0)
    } else {
        match spec_find_wsp(s.skip(1)) {
            Some(i) => Some(i + 1),
            None => None,
        }
    }
}

/// A first space-or-tab occurrence pins down `spec_find_wsp`.
pub proof fn lemma_find_wsp_some(s: Seq<char>, k: int)
    requires
        0 <= k < s.len(),
        s[k] == ' ' || s[k] == '\t',
        forall|j: int| 0 <= j < k ==> s[j] != ' ' && s[j] != '\t',
    ensures
        spec_find_wsp(s) == Some(k),
    decreases k,
{
    if k > 0 {
        lemma_find_wsp_some(s.skip(1), k - 1);
    }
}

/// With no space or tab anywhere, `spec_find_wsp` finds nothing.
pub proof fn lemma_find_wsp_none(s: Seq<char>)
    requires
        forall|j: int| 0 <= j < s.len() ==> s[j] != ' ' && s[j] != '\t',
    ensures
        spec_find_wsp(s) is None,
    decreases s.len(),
{
    if s.len() > 0 {
        lemma_find_wsp_none(s.skip(1));
    }
}

/// The count of leading `#` characters, the depth of a heading line.
pub open spec fn spec_count_hashes(s: Seq<char>) -> int
    decreases s.len(),
{
    if s.len() > 0 && s[0] == '#' {
        1 + spec_count_hashes(s.skip(1))
    } else {
        0
    }
}

/// A `#` prefix up to the first other character pins down the hash count.
pub proof fn lemma_count_hashes(s: Seq<char>, k: int)
    requires
        0 <= k <= s.len(),
        forall|j: int| 0 <= j < k ==> s[j] == '#',
        k == s.len() || s[k] != '#',
    ensures
        spec_count_hashes(s) == k,
    decreases k,
{
    if k == 0 {
    } else {
        lemma_count_hashes(s.skip(1), k - 1);
        assert(s.skip(1).skip(k - 1) =~= s.skip(k));
    }
}

/// The remainder of a line after its one-character marker and at most one
/// following space.
pub open spec fn spec_after_marker(line: Seq<char>) -> Seq<char> {
    let r = line.skip(1);
    if r.len() > 0 && r[0] == ' ' {
        r.skip(1)
    } else {
        r
    }
}

/// How a link's URL text is resolved: as an absolute URL when it parses as
/// one, otherwise joined against the document's base URL.
pub open spec fn spec_resolve_url(base: Seq<char>, input: Seq<char>) -> Option<Seq<char>> {
    match url_parse_model(input) {
        Some(u) => Some(u),
        None => url_join_model(base, input),
    }
}

/// Whether a line that is a link carries a URL text that re-parses, as an
/// absolute URL, to itself: the mark of a fully resolved URL serialization.
pub open spec fn line_link_absolute(l: LineModel) -> bool {
    match l {
        LineModel::Link { url, .. } => url_parse_model(url) == Some(url),
        _ => true,
    }
}

/// Whether every link of a document carries such a fully resolved URL.
pub open spec fn links_absolute(ls: Seq<LineModel>) -> bool {
    forall|i: int| 0 <= i < ls.len() ==> line_link_absolute(ls[i])
}

/// What a link line yields: the text after `=>` is stripped of leading
/// whitespace and split at the first space or tab into the URL token and the
/// optional description; an empty token set is an error, and so is a token
/// that resolves to no URL.
pub open spec fn spec_link_line(base: Seq<char>, line: Seq<char>, n: int) -> Result<
    LineModel,
    GemTextErrorModel,
> {
    let t = spec_trim_start(line.skip(2));
    if t.len() == 0 {
        Err(GemTextErrorModel { line: n, kind: GemTextErrorKindModel::LinkLineMissingUrl })
    } else {
        let tok = match spec_find_wsp(t) {
            Some(i) => t.take(i),
            None => t,
        };
        let rest = match spec_find_wsp(t) {
            Some(i) => t.skip(i + 1),
            None => Seq::<char>::empty(),
        };
        let description = if rest.len() == 0 {
            None
        } else {
            Some(rest)
        };
        match spec_resolve_url(base, tok) {
            Some(u) => Ok(LineModel::Link { url: u, description }),
            None => Err(
                GemTextErrorModel { line: n, kind: GemTextErrorKindModel::InvalidUrl(tok) },
            ),
        }
    }
}

/// How one physical line is classified, and the mode the parser is in
/// afterwards. In `Preformat` mode every line but the closing ``` toggle is
/// taken literally as text.
pub open spec fn spec_gemtext_line(
    base: Seq<char>,
    line: Seq<char>,
    n: int,
    mode: ParserMode,
) -> (Result<LineModel, GemTextErrorModel>, ParserMode) {
    if mode is Preformat {
        if spec_starts_with(line, pre_marker()) {
            (Ok(LineModel::PreformatToggleOff), ParserMode::Normal)
        } else {
            (Ok(LineModel::Text(line)), ParserMode::Preformat)
        }
    } else if spec_starts_with(line, link_marker()) {
        (spec_link_line(base, line, n), ParserMode::Normal)
    } else if spec_starts_with(line, pre_marker()) {
        (Ok(LineModel::PreformatToggleOn), ParserMode::Preformat)
    } else if spec_starts_with(line, seq!['#']) {
        let depth = spec_count_hashes(line);
        (
            Ok(LineModel::Heading { text: spec_trim(line.skip(depth)), depth }),
            ParserMode::Normal,
        )
    } else if spec_starts_with(line, seq!['*']) {
        (Ok(LineModel::ListItem(spec_after_marker(line))), ParserMode::Normal)
    } else if spec_starts_with(line, seq!['>']) {
        (Ok(LineModel::Quote(spec_after_marker(line))), ParserMode::Normal)
    } else {
        (Ok(LineModel::Text(line)), ParserMode::Normal)
    }
}

/// The document built from `lines`, starting in `mode` with `n0` lines
/// already consumed; the first error aborts the whole parse.
pub open spec fn spec_gemtext_lines(
    base: Seq<char>,
    lines: Seq<Seq<char>>,
    n0: int,
    mode: ParserMode,
) -> Result<Seq<LineModel>, GemTextErrorModel>
    decreases lines.len(),
{
    if lines.len() == 0 {
        Ok(Seq::empty())
    } else {
        let step = spec_gemtext_line(base, lines[0], n0 + 1, mode);
        match step.0 {
            Ok(l) => match spec_gemtext_lines(base, lines.skip(1), n0 + 1, step.1) {
                Ok(rest) => Ok(seq![l] + rest),
                Err(e) => Err(e),
            },
            Err(e) => Err(e),
        }
    }
}

/// The complete parse of a gemtext body against a base URL.
pub open spec fn spec_parse_gemtext(base: Seq<char>, body: Seq<char>) -> Result<
    Seq<LineModel>,
    GemTextErrorModel,
> {
    spec_gemtext_lines(base, spec_lines(body), 0, ParserMode::Normal)
}

/// The mathematical value of a line-classification result.
pub open spec fn view_line_result(r: Result<Line, GemTextError>) -> Result<
    LineModel,
    GemTextErrorModel,
> {
    match r {
        Ok(l) => Ok(l@),
        Err(e) => Err(e@),
    }
}

/// The mathematical value of a whole-body parse result.
pub open spec fn view_body_result(r: Result<GemTextBody, GemTextError>) -> Result<
    Seq<LineModel>,
    GemTextErrorModel,
> {
    match r {
        Ok(b) => Ok(b@),
        Err(e) => Err(e@),
    }
}

/// Cuts a body into its physical lines, as [`spec_lines`] describes them.
pub fn split_lines(s: &Vec<char>) -> (r: Vec<Vec<char>>)
    ensures
        r@.map_values(|l: Vec<char>| l@) == spec_lines(s@),
        r@.len() <= s@.len(),
{
    let mut r: Vec<Vec<char>> = Vec::new();
    let mut start: usize = 0;
    proof {
        lemma_spec_lines_count(s@);
        assert(s@.skip(0) =~= s@);
        assert(r@.map_values(|l: Vec<char>| l@) =~= Seq::<Seq<char>>::empty());
        assert(Seq::<Seq<char>>::empty() + spec_lines(s@) =~= spec_lines(s@));
    }
    while start < s.len()
        invariant
            start <= s@.len(),
            spec_lines(s@) == r@.map_values(|l: Vec<char>| l@) + spec_lines(
                s@.skip(start as int),
            ),
            r@.len() + spec_lines(s@.skip(start as int)).len() <= s@.len(),
        decreases s@.len() - start,
    {
        let ghost pre = r@.map_values(|l: Vec<char>| l@);
        let ghost tail = s@.skip(start as int);
        proof {
            lemma_spec_lines_count(tail);
        }
        match find_char_from(s, start, '\n') {
            Some(j) => {
                let piece = if j > start && s[j - 1] == '\r' {
                    subvec(s, start, j - 1)
                } else {
                    subvec(s, start, j)
                };
                proof {
                    assert(tail[j - start] == '\n');
                    if j > start {
                        assert(tail[j - start - 1] == s@[j - 1]);
                    }
                    if j > start && s@[j - 1] == '\r' {
                        assert(s@.subrange(start as int, j - 1) =~= tail.take(j - start - 1));
                    } else {
                        assert(s@.subrange(start as int, j as int) =~= tail.take(j - start));
                    }
                    assert(tail.skip((j - start) + 1) =~= s@.skip(j + 1));
                }
                r.push(piece);
                start = j + 1;
                proof {
                    assert(r@.map_values(|l: Vec<char>| l@) =~= pre.push(piece@));
                    assert(pre + spec_lines(tail) =~= r@.map_values(|l: Vec<char>| l@)
                        + spec_lines(s@.skip(start as int)));
                }
            },
            None => {
                let piece = subvec(s, start, s.len());
                proof {
                    assert(s@.subrange(start as int, s@.len() as int) =~= tail);
                }
                r.push(piece);
                start = s.len();
                proof {
                    assert(spec_lines(s@.skip(start as int)) =~= Seq::<Seq<char>>::empty());
                    assert(r@.map_values(|l: Vec<char>| l@) =~= pre.push(piece@));
                    assert(pre + spec_lines(tail) =~= r@.map_values(|l: Vec<char>| l@)
                        + spec_lines(s@.skip(start as int)));
                }
            },
        }
    }
    proof {
        assert(spec_lines(s@.skip(start as int)) =~= Seq::<Seq<char>>::empty());
        assert(r@.map_values(|l: Vec<char>| l@) + spec_lines(s@.skip(start as int)) =~= r@
            .map_values(|l: Vec<char>| l@));
    }
    r
}

/// The gemtext parser's fold state: the base URL links resolve against, the
/// 1-based number of the line being classified, and the preformat mode.
#[derive(Debug)]
pub struct GemTextParser {
    pub base_url: String,
    pub line_num: usize,
    pub mode: ParserMode,
}

impl GemTextParser {
    /// A fresh parser for a document rooted at `base_url`, before its first
    /// line.
    pub fn new(base_url: &str) -> (r: GemTextParser)
        ensures
            r.base_url@ == base_url@,
            r.line_num == 0,
            r.mode == ParserMode::Normal,
    {
        GemTextParser { base_url: base_url.to_owned(), line_num: 0, mode: ParserMode::Normal }
    }

    /// An error at the line currently being classified.
    pub fn make_err(&self, kind: GemTextErrorKind) -> (r: GemTextError)
        ensures
            r@ == (GemTextErrorModel { line: self.line_num as int, kind: kind@ }),
    {
        GemTextError { line: self.line_num, kind }
    }

    /// Resolves a link's URL text: first as an absolute URL, then as a
    /// reference relative to the base URL; an unresolvable text is an error
    /// naming it.
    pub fn make_url(&self, input: &Vec<char>) -> (r: Result<String, GemTextError>)
        ensures
            (match spec_resolve_url(self.base_url@, input@) {
                Some(u) => r matches Ok(s) && s@ == u,
                None => r matches Err(e) && e@ == (GemTextErrorModel {
                    line: self.line_num as int,
                    kind: GemTextErrorKindModel::InvalidUrl(input@),
                }),
            }),
            (r matches Ok(s) ==> url_parse_model(s@) == Some(s@)),
    {
        let s = chars_to_string(input);
        match url_parse_absolute(s.as_str()) {
            Some(u) => Ok(u),
            None => match url_join_relative(self.base_url.as_str(), s.as_str()) {
                Some(u) => Ok(u),
                None => Err(self.make_err(GemTextErrorKind::InvalidUrl(s))),
            },
        }
    }

    /// A plain text line, kept exactly as it stands.
    pub fn text_line(&self, line: &Vec<char>) -> (r: Result<Line, GemTextError>)
        ensures
            view_line_result(r) == Ok::<LineModel, GemTextErrorModel>(LineModel::Text(line@)),
    {
        Ok(Line::Text(chars_to_string(line)))
    }

    /// A link line, as [`spec_link_line`] describes it.
    pub fn link_line(&self, line: &Vec<char>) -> (r: Result<Line, GemTextError>)
        requires
            line@.len() >= 2,
        ensures
            view_line_result(r) == spec_link_line(self.base_url@, line@, self.line_num as int),
            (r matches Ok(l) ==> line_link_absolute(l@)),
    {
        let a = scan_spaces(line, 2);
        let t = subvec(line, a, line.len());
        proof {
            assert(t@ =~= line@.skip(2).skip(a - 2));
            assert(line@.skip(2).skip(a - 2) =~= line@.skip(a as int));
            assert(t@ == spec_trim_start(line@.skip(2)));
        }
        if t.len() == 0 {
            return Err(self.make_err(GemTextErrorKind::LinkLineMissingUrl));
        }
        let mut w: Option<usize> = None;
        let mut i: usize = 0;
        while i < t.len() && !(t[i] == ' ' || t[i] == '\t')
            invariant
                i <= t@.len(),
                forall|j: int| 0 <= j < i ==> t@[j] != ' ' && t@[j] != '\t',
            decreases t@.len() - i,
        {
            i = i + 1;
        }
        if i < t.len() {
            proof {
                lemma_find_wsp_some(t@, i as int);
            }
            w = Some(i);
        } else {
            proof {
                lemma_find_wsp_none(t@);
            }
        }
        let (tok, rest) = match w {
            Some(i) => (subvec(&t, 0, i), subvec(&t, i + 1, t.len())),
            None => {
                let ghost tv = t@;
                proof {
                    assert(tv.take(tv.len() as int) =~= tv);
                }
                (t, Vec::<char>::new())
            },
        };
        proof {
            match spec_find_wsp(t@) {
                Some(i) => {
                    assert(tok@ =~= t@.take(i));
                    assert(rest@ =~= t@.skip(i + 1));
                },
                None => {},
            }
        }
        let description = if rest.len() == 0 {
            None
        } else {
            Some(chars_to_string(&rest))
        };
        match self.make_url(&tok) {
            Ok(u) => Ok(Line::Link { url: u, description }),
            Err(e) => Err(e),
        }
    }

    /// A ``` line: flips the mode and reports the mode entered.
    pub fn preformat_toggle(&mut self) -> (r: Result<Line, GemTextError>)
        ensures
            final(self).base_url == old(self).base_url,
            final(self).line_num == old(self).line_num,
            old(self).mode == ParserMode::Normal ==> final(self).mode == ParserMode::Preformat
                && view_line_result(r) == Ok::<LineModel, GemTextErrorModel>(
                LineModel::PreformatToggleOn,
            ),
            old(self).mode == ParserMode::Preformat ==> final(self).mode == ParserMode::Normal
                && view_line_result(r) == Ok::<LineModel, GemTextErrorModel>(
                LineModel::PreformatToggleOff,
            ),
    {
        match self.mode {
            ParserMode::Normal => {
                self.mode = ParserMode::Preformat;
                Ok(Line::PreformatToggleOn)
            },
            ParserMode::Preformat => {
                self.mode = ParserMode::Normal;
                Ok(Line::PreformatToggleOff)
            },
        }
    }

    /// A heading line: the depth is the count of leading `#` characters and
    /// the text is the remainder, trimmed of surrounding whitespace.
    pub fn heading(&self, line: &Vec<char>) -> (r: Result<Line, GemTextError>)
        requires
            line@.len() >= 1,
            line@[0] == '#',
        ensures
            view_line_result(r) == Ok::<LineModel, GemTextErrorModel>(
                LineModel::Heading {
                    text: spec_trim(line@.skip(spec_count_hashes(line@))),
                    depth: spec_count_hashes(line@),
                },
            ),
    {
        let mut depth: usize = 0;
        while depth < line.len() && line[depth] == '#'
            invariant
                depth <= line@.len(),
                forall|j: int| 0 <= j < depth ==> line@[j] == '#',
            decreases line@.len() - depth,
        {
            depth = depth + 1;
        }
        proof {
            lemma_count_hashes(line@, depth as int);
        }
        let text = trim_range(line, depth);
        Ok(Line::Heading { text: chars_to_string(&text), depth })
    }

    /// A list-item line: the text after the `*` marker and at most one
    /// following space.
    pub fn list_item(&self, line: &Vec<char>) -> (r: Result<Line, GemTextError>)
        requires
            line@.len() >= 1,
        ensures
            view_line_result(r) == Ok::<LineModel, GemTextErrorModel>(
                LineModel::ListItem(spec_after_marker(line@)),
            ),
    {
        let start: usize = if line.len() > 1 && line[1] == ' ' {
            2
        } else {
            1
        };
        let v = subvec(line, start, line.len());
        proof {
            assert(v@ =~= spec_after_marker(line@));
        }
        Ok(Line::ListItem(chars_to_string(&v)))
    }

    /// A quote line: the text after the `>` marker and at most one following
    /// space.
    pub fn quote_line(&self, line: &Vec<char>) -> (r: Result<Line, GemTextError>)
        requires
            line@.len() >= 1,
        ensures
            view_line_result(r) == Ok::<LineModel, GemTextErrorModel>(
                LineModel::Quote(spec_after_marker(line@)),
            ),
    {
        let start: usize = if line.len() > 1 && line[1] == ' ' {
            2
        } else {
            1
        };
        let v = subvec(line, start, line.len());
        proof {
            assert(v@ =~= spec_after_marker(line@));
        }
        Ok(Line::Quote(chars_to_string(&v)))
    }

    /// Classifies one physical line by its prefix, as [`spec_gemtext_line`]
    /// describes, and leaves the parser in the mode entered.
    pub fn gemtext_line(&mut self, line: &Vec<char>) -> (r: Result<Line, GemTextError>)
        ensures
            final(self).base_url == old(self).base_url,
            final(self).line_num == old(self).line_num,
            ({
                let step = spec_gemtext_line(
                    old(self).base_url@,
                    line@,
                    old(self).line_num as int,
                    old(self).mode,
                );
                view_line_result(r) == step.0 && final(self).mode == step.1
            }),
            (r matches Ok(l) ==> line_link_absolute(l@)),
    {
        let link_m: Vec<char> = vec!['=', '>'];
        let pre_m: Vec<char> = vec!['`', '`', '`'];
        proof {
            assert(link_m@ =~= link_marker());
            assert(pre_m@ =~= pre_marker());
        }
        match self.mode {
            ParserMode::Preformat => {
                if starts_with_chars(line, &pre_m) {
                    self.preformat_toggle()
                } else {
                    self.text_line(line)
                }
            },
            ParserMode::Normal => {
                if starts_with_chars(line, &link_m) {
                    proof {
                        assert(line@[0] == line@.take(2)[0]);
                    }
                    let r = self.link_line(line);
                    r
                } else if starts_with_chars(line, &pre_m) {
                    self.preformat_toggle()
                } else if line.len() >= 1 && line[0] == '#' {
                    proof {
                        assert(spec_starts_with(line@, seq!['#'])
                            == (line@.len() >= 1 && line@[0] == '#')) by {
                            if line@.len() >= 1 {
                                assert(line@.take(1) =~= seq![line@[0]]);
                            }
                        };
                    }
                    self.heading(line)
                } else if line.len() >= 1 && line[0] == '*' {
                    proof {
                        assert(line@.take(1) =~= seq![line@[0]]);
                    }
                    self.list_item(line)
                } else if line.len() >= 1 && line[0] == '>' {
                    proof {
                        assert(line@.take(1) =~= seq![line@[0]]);
                    }
                    self.quote_line(line)
                } else {
                    proof {
                        if line@.len() >= 1 {
                            assert(line@.take(1) =~= seq![line@[0]]);
                        }
                    }
                    self.text_line(line)
                }
            },
        }
    }

    /// Parses a whole body, line by line, aborting at the first error.
    pub fn gemtext_document(&mut self, body: &str) -> (r: Result<GemTextBody, GemTextError>)
        requires
            old(self).line_num + body@.len() < usize::MAX,
        ensures
            final(self).base_url == old(self).base_url,
            view_body_result(r) == spec_gemtext_lines(
                old(self).base_url@,
                spec_lines(body@),
                old(self).line_num as int,
                old(self).mode,
            ),
            (r matches Ok(b) ==> links_absolute(b@)),
    {
        let chars = str_to_chars(body);
        let lines = split_lines(&chars);
        let ghost l_model = spec_lines(body@);
        let ghost base0 = self.base_url@;
        let ghost n0 = self.line_num as int;
        let ghost whole = spec_gemtext_lines(base0, l_model, n0, self.mode);
        let mut out: Vec<Line> = Vec::new();
        let mut k: usize = 0;
        proof {
            assert(l_model.skip(0) =~= l_model);
            assert(out@.map_values(|l: Line| l@) =~= Seq::<LineModel>::empty());
            match spec_gemtext_lines(base0, l_model, n0, self.mode) {
                Ok(rest) => {
                    assert(Seq::<LineModel>::empty() + rest =~= rest);
                },
                Err(_) => {},
            }
        }
        while k < lines.len()
            invariant
                k <= lines@.len(),
                lines@.map_values(|l: Vec<char>| l@) == l_model,
                lines@.len() <= body@.len(),
                n0 + body@.len() < usize::MAX,
                l_model == spec_lines(body@),
                l_model.len() == lines@.len(),
                base0 == old(self).base_url@,
                n0 == old(self).line_num as int,
                whole == spec_gemtext_lines(base0, l_model, n0, old(self).mode),
                links_absolute(out@.map_values(|l: Line| l@)),
                self.base_url@ == base0,
                self.base_url == old(self).base_url,
                self.line_num == n0 + k,
                (match spec_gemtext_lines(base0, l_model.skip(k as int), n0 + k, self.mode) {
                    Ok(rest) => whole == Ok::<Seq<LineModel>, GemTextErrorModel>(
                        out@.map_values(|l: Line| l@) + rest,
                    ),
                    Err(e) => whole == Err::<Seq<LineModel>, GemTextErrorModel>(e),
                }),
            decreases lines@.len() - k,
        {
            let ghost mode0 = self.mode;
            let ghost tail_lines = l_model.skip(k as int);
            proof {
                assert(tail_lines[0] == l_model[k as int]);
                assert(l_model[k as int] == lines@[k as int]@);
            }
            self.line_num = self.line_num + 1;
            let ghost pre = out@.map_values(|l: Line| l@);
            let line_k: &Vec<char> = &lines[k];
            let r1 = self.gemtext_line(line_k);
            proof {
                let step = spec_gemtext_line(base0, tail_lines[0], n0 + k + 1, mode0);
                assert(spec_gemtext_lines(base0, tail_lines, n0 + k, mode0) == (match step.0 {
                    Ok(l) => match spec_gemtext_lines(base0, tail_lines.skip(1), n0 + k + 1, step.1) {
                        Ok(rest) => Ok::<Seq<LineModel>, GemTextErrorModel>(seq![l] + rest),
                        Err(e) => Err::<Seq<LineModel>, GemTextErrorModel>(e),
                    },
                    Err(e) => Err::<Seq<LineModel>, GemTextErrorModel>(e),
                }));
            }
            match r1 {
                Ok(l) => {
                    out.push(l);
                    k = k + 1;
                    proof {
                        assert(tail_lines.skip(1) =~= l_model.skip(k as int));
                        assert(out@.map_values(|x: Line| x@) =~= pre.push(l@));
                        let newm = out@.map_values(|x: Line| x@);
                        assert forall|q: int|
                            0 <= q < newm.len() implies line_link_absolute(
                            #[trigger] newm[q],
                        ) by {
                            if q < pre.len() {
                                assert(newm[q] == pre[q]);
                                assert(line_link_absolute(pre[q]));
                            } else {
                                assert(newm[q] == l@);
                            }
                        }
                        assert(links_absolute(newm));
                        match spec_gemtext_lines(base0, l_model.skip(k as int), n0 + k, self.mode) {
                            Ok(rest) => {
                                assert(pre + (seq![l@] + rest) =~= pre.push(l@) + rest);
                            },
                            Err(_) => {},
                        }
                    }
                },
                Err(e) => {
                    proof {
                        assert(whole == Err::<Seq<LineModel>, GemTextErrorModel>(e@));
                    }
                    return Err(e);
                },
            }
        }
        proof {
            assert(l_model.skip(k as int) =~= Seq::<Seq<char>>::empty());
            assert(out@.map_values(|l: Line| l@) + Seq::<LineModel>::empty() =~= out@.map_values(
                |l: Line| l@,
            ));
        }
        Ok(GemTextBody(out))
    }
}

/// Parses a gemtext body against the base URL its relative links resolve
/// against, yielding the document's lines in order; the first malformed line
/// aborts the parse with its 1-based line number.
pub fn parse_gemtext(base_url: &str, body: &str) -> (r: Result<GemTextBody, GemTextError>)
    requires
        body@.len() < usize::MAX,
    ensures
        view_body_result(r) == spec_parse_gemtext(base_url@, body@),
        (r matches Ok(b) ==> links_absolute(b@)),
{
    let mut parser = GemTextParser::new(base_url);
    parser.gemtext_document(body)
}

} // verus!
