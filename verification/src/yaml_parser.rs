//! The document-level entry points: parsing a document into its arena of
//! positioned target references, recognizing Hydra-style documents, and
//! point queries against the arena.

use vstd::prelude::*;
use vstd::string::StrSliceExecFns;

use crate::positions::with_positions;
use crate::target_extract::arena_model;
use crate::target_extract::extract_value;
use crate::target_extract::reserved_key;
use crate::target_extract::Em;
use crate::target_extract::Parameter;
use crate::target_extract::ParamValue;
use crate::target_extract::TargetInfo;
use crate::text::chars_of;
use crate::text::is_line_partition;
use crate::text::line_ranges;
use crate::text::match_at;
use crate::text::match_in;
use crate::yaml_value::yaml_tree_of;
use crate::yaml_value::Yv;

verus! {

/// A point in a document: zero-based line and character column.
#[derive(Debug, Clone, Copy, PartialEq, Eq, Structural)]
pub struct Position {
    pub line: u32,
    pub character: u32,
}

impl Position {
    /// Packs a line and a column.
    pub fn new(line: u32, character: u32) -> (p: Position)
        ensures
            p.line == line && p.character == character,
    {
        Position { line, character }
    }
}

/// A failure to read the document: the text is not well-formed YAML.
#[derive(Debug)]
pub struct YamlError {
    pub message: String,
}

/// The arena: every target reference of one document, in discovery order,
/// with recovered positions.
pub struct TargetArena {
    pub entries: Vec<TargetInfo>,
}

/// The first arena index whose entry sits on `line`.
pub open spec fn line_index(a: Seq<Em>, line: int, i: int) -> Option<int>
    decreases a.len() - i,
{
    if i < 0 || i >= a.len() {
        None
    } else if a[i].line == line {
        Some(i)
    } else {
        line_index(a, line, i + 1)
    }
}

impl TargetArena {
    /// The models of the entries, in order.
    pub open spec fn model(self) -> Seq<Em> {
        arena_model(self.entries@)
    }

    /// How many target references the document holds.
    pub fn len(&self) -> (n: usize)
        ensures
            n == self.model().len(),
    {
        self.entries.len()
    }

    /// The entry at arena index `i`.
    pub fn entry(&self, i: usize) -> (e: &TargetInfo)
        requires
            i < self.model().len(),
        ensures
            e.model() == self.model()[i as int],
    {
        &self.entries[i]
    }

    /// The first target reference on the given line, if any.
    pub fn get(&self, line: &u32) -> (r: Option<&TargetInfo>)
        ensures
            match r {
                Some(e) => line_index(self.model(), *line as int, 0) matches Some(i) && e.model()
                    == self.model()[i],
                None => line_index(self.model(), *line as int, 0) is None,
            },
    {
        let mut i: usize = 0;
        let n = self.entries.len();
        while i < n
            invariant
                i <= n,
                n == self.model().len(),
                n == self.entries@.len(),
                line_index(self.model(), *line as int, i as int) == line_index(
                    self.model(),
                    *line as int,
                    0,
                ),
            decreases n - i,
        {
            if self.entries[i].line == *line {
                proof {
                    assert(self.model()[i as int] == self.entries@[i as int].model());
                }
                return Some(&self.entries[i]);
            }
            proof {
                assert(self.model()[i as int].line != *line as int);
            }
            i = i + 1;
        }
        None
    }

    /// Wraps a finished entry list.
    pub(crate) fn from_entries(entries: Vec<TargetInfo>) -> (a: TargetArena)
        ensures
            a.model() == arena_model(entries@),
    {
        TargetArena { entries }
    }
}

impl ParamValue {
    /// A copy with the same model.
    pub fn duplicate(&self) -> (r: ParamValue)
        ensures
            r.model() == self.model(),
    {
        match self {
            ParamValue::Scalar(v) => ParamValue::Scalar(v.duplicate()),
            ParamValue::Nested(i) => ParamValue::Nested(*i),
        }
    }
}

impl Parameter {
    /// A copy with the same model.
    pub fn duplicate(&self) -> (r: Parameter)
        ensures
            r.model() == self.model(),
    {
        Parameter {
            key: self.key.clone(),
            line: self.line,
            key_span: self.key_span,
            value: self.value.duplicate(),
        }
    }
}

impl TargetInfo {
    /// A copy with the same model.
    pub fn duplicate(&self) -> (r: TargetInfo)
        ensures
            r.model() == self.model(),
    {
        let mut params: Vec<Parameter> = Vec::new();
        let mut i: usize = 0;
        while i < self.parameters.len()
            invariant
                i <= self.parameters@.len(),
                params@.len() == i,
                forall|j: int|
                    0 <= j < i ==> (#[trigger] params@[j]).model() == self.parameters@[j].model(),
            decreases self.parameters@.len() - i,
        {
            let p = self.parameters[i].duplicate();
            params.push(p);
            i = i + 1;
        }
        let r = TargetInfo {
            value: self.value.clone(),
            line: self.line,
            key_start: self.key_start,
            value_start: self.value_start,
            parameters: params,
        };
        proof {
            assert(r.model().params =~= self.model().params);
        }
        r
    }
}

/// The arena a well-formed document denotes: the target references of its
/// value tree, in discovery order, with positions recovered from its text.
pub open spec fn document_arena(s: Seq<char>, tree: Yv, lines: Seq<(usize, usize)>) -> Seq<Em> {
    with_positions(s, lines, extract_value(tree, Seq::empty()))
}

/// Namespace for the document-level entry points.
#[derive(Debug)]
pub struct YamlParser;

impl YamlParser {
    /// Parses a document and extracts its positioned target references.
    /// Fails exactly when the text is not well-formed YAML.
    pub fn parse(content: &str) -> (r: Result<TargetArena, YamlError>)
        requires
            content@.len() <= u32::MAX,
        ensures
            match r {
                Ok(arena) => {
                    &&& yaml_tree_of(content@) matches Some(tree)
                    &&& exists|lines: Seq<(usize, usize)>|
                        is_line_partition(content@, lines) && arena.model() == #[trigger] document_arena(
                            content@,
                            yaml_tree_of(content@)->0,
                            lines,
                        )
                },
                Err(_) => yaml_tree_of(content@) is None,
            },
    {
        let raw = match crate::yaml_value::read_raw_document(content) {
            Ok(raw) => raw,
            Err(message) => {
                return Err(YamlError { message });
            },
        };
        let tree = crate::yaml_value::convert_raw(&raw);
        let mut arena: Vec<TargetInfo> = Vec::new();
        proof {
            assert(arena_model(arena@) =~= Seq::<Em>::empty());
        }
        crate::target_extract::extract_value_into(&tree, &mut arena);
        let v = chars_of(content);
        let lines = line_ranges(&v);
        let placed = crate::positions::recover_positions(&v, &lines, arena);
        proof {
            assert(is_line_partition(content@, lines@));
            assert(yaml_tree_of(content@)->0 == tree.model());
            assert(arena_model(placed@) == document_arena(content@, tree.model(), lines@));
        }
        Ok(TargetArena::from_entries(placed))
    }

    /// Whether the document looks like a Hydra configuration: a marker
    /// comment near the top, or the reserved key anywhere in the text.
    pub fn is_hydra_file(content: &str) -> (r: bool)
        ensures
            r == (has_hydra_comment_spec(content@) || match_in(
                content@,
                reserved_key(),
                0,
                content@.len() as int,
            )),
    {
        if Self::has_hydra_comment(content) {
            return true;
        }
        if Self::has_target_keyword(content) {
            return true;
        }
        false
    }

    /// Whether one of the first ten lines, after leading whitespace, opens
    /// with a Hydra marker comment.
    pub fn has_hydra_comment(content: &str) -> (r: bool)
        ensures
            r == has_hydra_comment_spec(content@),
    {
        let v = chars_of(content);
        let lines = line_ranges(&v);
        let m1 = chars_of("# @hydra");
        let m2 = chars_of("# hydra:");
        let mut k: usize = 0;
        let n = lines.len();
        let limit: usize = if n < 10 {
            n
        } else {
            10
        };
        while k < limit
            invariant
                k <= limit,
                limit <= lines@.len(),
                limit == (if lines@.len() < 10 {
                    lines@.len() as int
                } else {
                    10int
                }),
                is_line_partition(v@, lines@),
                v@ == content@,
                m1@ == "# @hydra"@,
                m2@ == "# hydra:"@,
                forall|j: int|
                    0 <= j < k ==> !line_has_marker(content@, (#[trigger] lines@[j]).0 as int, lines@[j].1 as int),
            decreases limit - k,
        {
            let (a, b) = lines[k];
            let j = crate::positions::skip_ws_exec(&v, b, a);
            if crate::text::occurs_at(&v, &m1, j) && b - j >= m1.len() {
                proof {
                    lemma_line_has_marker(content@, lines@, k as int);
                }
                return true;
            }
            if crate::text::occurs_at(&v, &m2, j) && b - j >= m2.len() {
                proof {
                    lemma_line_has_marker(content@, lines@, k as int);
                }
                return true;
            }
            k = k + 1;
        }
        proof {
            if has_hydra_comment_spec(content@) {
                let lines2 = choose|lines2: Seq<(usize, usize)>|
                    is_line_partition(content@, lines2) && has_marker_in(content@, lines2);
                crate::text::lemma_line_partition_unique(content@, lines@, lines2);
            }
        }
        false
    }

    /// Whether the reserved key occurs anywhere in the text.
    pub fn has_target_keyword(content: &str) -> (r: bool)
        ensures
            r == match_in(content@, reserved_key(), 0, content@.len() as int),
    {
        let v = chars_of(content);
        let mut pat = chars_of("_target_");
        proof {
            reveal_strlit("_target_");
            assert(pat@ =~= reserved_key());
        }
        let n = v.len();
        match crate::text::find_in(&v, &pat, 0, n) {
            Some(_) => true,
            None => false,
        }
    }

    /// The target reference whose reserved key the position touches: the
    /// first entry on that line, provided the column lies on the key
    /// token (its column range, one key-and-colon width wide).
    pub fn find_target_at_position(content: &str, position: Position) -> (r: Result<
        Option<TargetInfo>,
        YamlError,
    >)
        requires
            content@.len() <= u32::MAX,
        ensures
            match r {
                Ok(found) => {
                    &&& yaml_tree_of(content@) matches Some(tree)
                    &&& exists|lines: Seq<(usize, usize)>|
                        is_line_partition(content@, lines) && found_target_at(
                            #[trigger] document_arena(content@, yaml_tree_of(content@)->0, lines),
                            position,
                            found,
                        )
                },
                Err(_) => yaml_tree_of(content@) is None,
            },
    {
        let arena = match Self::parse(content) {
            Ok(a) => a,
            Err(e) => {
                return Err(e);
            },
        };
        let ghost lines0 = choose|lines: Seq<(usize, usize)>|
            is_line_partition(content@, lines) && arena.model() == #[trigger] document_arena(
                content@,
                yaml_tree_of(content@)->0,
                lines,
            );
        match arena.get(&position.line) {
            Some(t) => {
                let key_len: u32 = 9;
                if position.character >= t.key_start && position.character - t.key_start <= key_len
                {
                    let found = Some(t.duplicate());
                    proof {
                        assert(found_target_at(arena.model(), position, found));
                    }
                    Ok(found)
                } else {
                    proof {
                        assert(found_target_at(arena.model(), position, None::<TargetInfo>));
                    }
                    Ok(None)
                }
            },
            None => {
                proof {
                    assert(found_target_at(arena.model(), position, None::<TargetInfo>));
                }
                Ok(None)
            },
        }
    }
}

/// What a point query returns over a given arena: the first entry on the
/// queried line when the column lies within the reserved key token's
/// span, nothing otherwise.
pub open spec fn found_target_at(arena: Seq<Em>, position: Position, found: Option<TargetInfo>) -> bool {
    match line_index(arena, position.line as int, 0) {
        Some(i) => {
            let e = arena[i];
            if e.key_start <= position.character <= e.key_start + 9 {
                found matches Some(t) && t.model() == e
            } else {
                found is None
            }
        },
        None => found is None,
    }
}

/// What is being completed at a cursor position: a target value, a
/// parameter key for a known target, a parameter value, or nothing
/// recognizable.
#[derive(Debug)]
pub enum CompletionContext {
    TargetValue { partial: String },
    ParameterKey { target: String, partial: String },
    ParameterValue { target: String, parameter: String, partial: String },
    Unknown,
}

/// Model of a completion context.
pub enum CcM {
    TargetValue { partial: Seq<char> },
    ParameterKey { target: Seq<char>, partial: Seq<char> },
    ParameterValue { target: Seq<char>, parameter: Seq<char>, partial: Seq<char> },
    Unknown,
}

impl CompletionContext {
    /// The context's model.
    pub open spec fn model(self) -> CcM {
        match self {
            CompletionContext::TargetValue { partial } => CcM::TargetValue { partial: partial@ },
            CompletionContext::ParameterKey { target, partial } => CcM::ParameterKey {
                target: target@,
                partial: partial@,
            },
            CompletionContext::ParameterValue { target, parameter, partial } => CcM::ParameterValue {
                target: target@,
                parameter: parameter@,
                partial: partial@,
            },
            CompletionContext::Unknown => CcM::Unknown,
        }
    }
}

/// The window `[a, b)` with trailing whitespace removed: the least end
/// holding all non-whitespace of the window.
pub open spec fn trim_end_from(s: Seq<char>, a: int, b: int) -> int
    decreases b - a,
{
    if b <= a {
        a
    } else if 0 <= b - 1 < s.len() && crate::text::is_ws(s[b - 1]) {
        trim_end_from(s, a, b - 1)
    } else {
        b
    }
}

/// The first occurrence of `pat` inside `[i, to)`, fully contained.
pub open spec fn find_pat_from(s: Seq<char>, pat: Seq<char>, i: int, to: int) -> Option<int>
    decreases to - i,
{
    if i >= to || i + pat.len() > to {
        None
    } else if match_at(s, pat, i) {
        Some(i)
    } else {
        find_pat_from(s, pat, i + 1, to)
    }
}

/// The window `[a, b)` with every leading and trailing `c` removed.
pub open spec fn strip_char_range(s: Seq<char>, a: int, b: int, c: char) -> (int, int)
    decreases b - a,
{
    if b <= a {
        (a, b)
    } else if 0 <= a < s.len() && s[a] == c {
        strip_char_range(s, a + 1, b, c)
    } else if 0 <= b - 1 < s.len() && s[b - 1] == c {
        strip_char_range(s, a, b - 1, c)
    } else {
        (a, b)
    }
}

/// The leading indentation of the window `[a, b)`: the column count of
/// whitespace before its first non-whitespace character, or the window's
/// whole width when it is blank.
pub open spec fn indent_of(s: Seq<char>, a: int, b: int) -> int {
    crate::positions::skip_ws_from(s, b, a) - a
}

/// The target value in scope at line `i`, searching upward: the value of
/// the nearest reserved-key line at indentation `cur`, unless a
/// non-blank line with smaller indentation closes the scope first.  The
/// value is trimmed of whitespace and stripped of quotes.
pub open spec fn target_in_scope(s: Seq<char>, lines: Seq<(usize, usize)>, i: int, cur: int) -> Option<
    Seq<char>,
>
    decreases i + 1,
{
    if i < 0 || i >= lines.len() {
        None
    } else {
        let a = lines[i].0 as int;
        let b = lines[i].1 as int;
        let ind = indent_of(s, a, b);
        if ind < cur && crate::positions::skip_ws_from(s, b, a) < b {
            None
        } else {
            match find_pat_from(s, "_target_:"@, a, b) {
                Some(p) if ind == cur => {
                    let va = crate::positions::skip_ws_from(s, b, p + "_target_:"@.len());
                    let vb = trim_end_from(s, va, b);
                    let dq = strip_char_range(s, va, vb, '"');
                    let sq = strip_char_range(s, dq.0, dq.1, '\'');
                    Some(s.subrange(sq.0, sq.1))
                },
                _ => target_in_scope(s, lines, i - 1, cur),
            }
        }
    }
}

/// The completion context at a cursor position: target-value completion
/// on a reserved-key line, parameter-key or parameter-value completion
/// inside a scope that has a target, nothing otherwise.
pub open spec fn completion_context_spec(
    s: Seq<char>,
    lines: Seq<(usize, usize)>,
    line: int,
    character: int,
) -> CcM {
    if line < 0 || line >= lines.len() {
        CcM::Unknown
    } else {
        let a = lines[line].0 as int;
        let b = lines[line].1 as int;
        let pend = if character < b - a {
            a + character
        } else {
            b
        };
        match find_pat_from(s, "_target_:"@, a, pend) {
            Some(tp) => {
                let va = crate::positions::skip_ws_from(s, pend, tp + "_target_:"@.len());
                let vb = trim_end_from(s, va, pend);
                CcM::TargetValue { partial: s.subrange(va, vb) }
            },
            None => match target_in_scope(s, lines, line, indent_of(s, a, b)) {
                Some(tv) => {
                    let ta = crate::positions::skip_ws_from(s, pend, a);
                    let tb = trim_end_from(s, ta, pend);
                    if ta >= tb {
                        CcM::Unknown
                    } else {
                        match find_pat_from(s, ":"@, ta, tb) {
                            Some(ci) => {
                                let ka = ta;
                                let kb = trim_end_from(s, ka, ci);
                                let va = crate::positions::skip_ws_from(s, tb, ci + 1);
                                let vb = trim_end_from(s, va, tb);
                                CcM::ParameterValue {
                                    target: tv,
                                    parameter: s.subrange(ka, kb),
                                    partial: s.subrange(va, vb),
                                }
                            },
                            None => CcM::ParameterKey { target: tv, partial: s.subrange(ta, tb) },
                        }
                    }
                },
                None => CcM::Unknown,
            },
        }
    }
}

/// Computes `trim_end_from`.
#[verifier::loop_isolation(false)]
pub fn trim_end_exec(v: &Vec<char>, a: usize, b: usize) -> (r: usize)
    requires
        a <= b <= v@.len(),
    ensures
        r == trim_end_from(v@, a as int, b as int),
        a <= r <= b,
{
    let mut e: usize = b;
    while e > a
        invariant
            a <= e <= b,
            trim_end_from(v@, a as int, e as int) == trim_end_from(v@, a as int, b as int),
        decreases e,
    {
        let c = v[e - 1];
        if !(c == ' ' || c == '\t') {
            return e;
        }
        e = e - 1;
    }
    a
}

/// Computes `find_pat_from`.
#[verifier::loop_isolation(false)]
pub fn find_pat_exec(v: &Vec<char>, pat: &Vec<char>, a: usize, b: usize) -> (r: Option<usize>)
    requires
        a <= b <= v@.len(),
    ensures
        match r {
            Some(p) => a <= p < b && Some(p as int) == find_pat_from(
                v@,
                pat@,
                a as int,
                b as int,
            ),
            None => find_pat_from(v@, pat@, a as int, b as int) is None,
        },
{
    let mut i: usize = a;
    while i < b
        invariant
            a <= i <= b,
            find_pat_from(v@, pat@, i as int, b as int) == find_pat_from(
                v@,
                pat@,
                a as int,
                b as int,
            ),
        decreases b - i,
    {
        if pat.len() <= b - i && crate::text::occurs_at(v, pat, i) {
            return Some(i);
        }
        i = i + 1;
    }
    None
}

/// Computes `strip_char_range`.
#[verifier::loop_isolation(false)]
pub fn strip_char_exec(v: &Vec<char>, a: usize, b: usize, c: char) -> (r: (usize, usize))
    requires
        a <= b <= v@.len(),
    ensures
        (r.0 as int, r.1 as int) == strip_char_range(v@, a as int, b as int, c),
        a <= r.0 <= r.1 <= b,
    decreases b - a,
{
    if b <= a {
        (a, b)
    } else if v[a] == c {
        strip_char_exec(v, a + 1, b, c)
    } else if v[b - 1] == c {
        strip_char_exec(v, a, b - 1, c)
    } else {
        (a, b)
    }
}

/// A found pattern lies fully inside the search window.
pub proof fn lemma_find_pat(s: Seq<char>, pat: Seq<char>, a: int, b: int)
    ensures
        find_pat_from(s, pat, a, b) matches Some(p) ==> a <= p && p + pat.len() <= b && match_at(
            s,
            pat,
            p,
        ),
    decreases b - a,
{
    if a < b && a + pat.len() <= b && !match_at(s, pat, a) {
        lemma_find_pat(s, pat, a + 1, b);
    } else if a < b && a + pat.len() <= b {
    } else {
    }
}

impl YamlParser {
    /// The target value in scope at line `i` of the document: the value
    /// of the nearest reserved-key line at indentation `cur` above, the
    /// scope not yet closed by a less-indented line.
    #[verifier::loop_isolation(false)]
    fn find_target_in_scope(
        v: &Vec<char>,
        lines: &Vec<(usize, usize)>,
        content: &str,
        i0: usize,
        cur: usize,
    ) -> (r: Option<String>)
        requires
            content@ == v@,
            crate::text::is_line_partition(v@, lines@),
            i0 < lines@.len(),
        ensures
            match r {
                Some(t) => target_in_scope(v@, lines@, i0 as int, cur as int) == Some(t@),
                None => target_in_scope(v@, lines@, i0 as int, cur as int) is None,
            },
    {
        let pat = chars_of("_target_:");
        proof {
            reveal_strlit("_target_:");
            assert(pat@ =~= "_target_:"@);
        }
        let mut i: usize = i0;
        loop
            invariant
                i <= i0 < lines@.len(),
                pat@ == "_target_:"@,
                target_in_scope(v@, lines@, i as int, cur as int) == target_in_scope(
                    v@,
                    lines@,
                    i0 as int,
                    cur as int,
                ),
            decreases i + 1,
        {
            let (a, b) = lines[i];
            let j = crate::positions::skip_ws_exec(v, b, a);
            let ind = j - a;
            if ind < cur && j < b {
                return None;
            }
            match find_pat_exec(v, &pat, a, b) {
                Some(p) => {
                    if ind == cur {
                        proof {
                            lemma_find_pat(v@, pat@, a as int, b as int);
                        }
                        let va = crate::positions::skip_ws_exec(v, b, p + pat.len());
                        let vb = trim_end_exec(v, va, b);
                        let dq = strip_char_exec(v, va, vb, '"');
                        let sq = strip_char_exec(v, dq.0, dq.1, '\'');
                        let value = content.substring_char(sq.0, sq.1).to_owned();
                        return Some(value);
                    }
                },
                None => {},
            }
            if i == 0 {
                return None;
            }
            i = i - 1;
        }
    }

    /// The completion context at a cursor position: what is being typed
    /// there, as far as the surrounding lines reveal it.
    #[verifier::loop_isolation(false)]
    pub fn get_completion_context(content: &str, position: Position) -> (r: Result<
        CompletionContext,
        YamlError,
    >)
        ensures
            r matches Ok(c) && exists|lines: Seq<(usize, usize)>|
                is_line_partition(content@, lines) && c.model() == #[trigger] completion_context_spec(
                    content@,
                    lines,
                    position.line as int,
                    position.character as int,
                ),
    {
        let v = chars_of(content);
        let lines = line_ranges(&v);
        let ghost lm = lines@;
        let ln = position.line as usize;
        if ln >= lines.len() {
            proof {
                assert(completion_context_spec(content@, lm, position.line as int, position.character as int)
                    == CcM::Unknown);
            }
            return Ok(CompletionContext::Unknown);
        }
        let (a, b) = lines[ln];
        let chr = position.character as usize;
        let pend: usize = if chr < b - a {
            a + chr
        } else {
            b
        };
        let pat = chars_of("_target_:");
        proof {
            reveal_strlit("_target_:");
            assert(pat@ =~= "_target_:"@);
        }
        match find_pat_exec(&v, &pat, a, pend) {
            Some(tp) => {
                proof {
                    lemma_find_pat(v@, pat@, a as int, pend as int);
                }
                let va = crate::positions::skip_ws_exec(&v, pend, tp + pat.len());
                let vb = trim_end_exec(&v, va, pend);
                let partial = content.substring_char(va, vb).to_owned();
                Ok(CompletionContext::TargetValue { partial })
            },
            None => {
                let j0 = crate::positions::skip_ws_exec(&v, b, a);
                let cur = j0 - a;
                match Self::find_target_in_scope(&v, &lines, content, ln, cur) {
                    Some(target) => {
                        let ta = crate::positions::skip_ws_exec(&v, pend, a);
                        let tb = trim_end_exec(&v, ta, pend);
                        if ta >= tb {
                            return Ok(CompletionContext::Unknown);
                        }
                        let colon = chars_of(":");
                        proof {
                            reveal_strlit(":");
                            assert(colon@ =~= ":"@);
                        }
                        match find_pat_exec(&v, &colon, ta, tb) {
                            Some(ci) => {
                                let kb = trim_end_exec(&v, ta, ci);
                                proof {
                                    lemma_find_pat(v@, colon@, ta as int, tb as int);
                                }
                                let va2 = crate::positions::skip_ws_exec(&v, tb, ci + 1);
                                let vb2 = trim_end_exec(&v, va2, tb);
                                let parameter = content.substring_char(ta, kb).to_owned();
                                let partial = content.substring_char(va2, vb2).to_owned();
                                Ok(
                                    CompletionContext::ParameterValue {
                                        target,
                                        parameter,
                                        partial,
                                    },
                                )
                            },
                            None => {
                                let partial = content.substring_char(ta, tb).to_owned();
                                Ok(CompletionContext::ParameterKey { target, partial })
                            },
                        }
                    },
                    None => Ok(CompletionContext::Unknown),
                }
            },
        }
    }
}

/// The line window `[a, b)` opens, after leading whitespace, with one of
/// the two Hydra marker comments.
pub open spec fn line_has_marker(s: Seq<char>, a: int, b: int) -> bool {
    let j = crate::positions::skip_ws_from(s, b, a);
    ||| (match_at(s, "# @hydra"@, j) && j + "# @hydra"@.len() <= b)
    ||| (match_at(s, "# hydra:"@, j) && j + "# hydra:"@.len() <= b)
}

/// One of the first ten lines of the partition carries a marker.
pub open spec fn has_marker_in(s: Seq<char>, lines: Seq<(usize, usize)>) -> bool {
    exists|k: int|
        0 <= k < lines.len() && k < 10 && line_has_marker(
            s,
            (#[trigger] lines[k]).0 as int,
            lines[k].1 as int,
        )
}

/// One of the first ten lines of the document carries a marker.
pub open spec fn has_hydra_comment_spec(s: Seq<char>) -> bool {
    exists|lines: Seq<(usize, usize)>|
        is_line_partition(s, lines) && #[trigger] has_marker_in(s, lines)
}

/// Helper: a found marker on line `k` witnesses `has_hydra_comment_spec`.
proof fn lemma_line_has_marker(s: Seq<char>, lines: Seq<(usize, usize)>, k: int)
    requires
        is_line_partition(s, lines),
        0 <= k < lines.len(),
        k < 10,
        line_has_marker(s, lines[k].0 as int, lines[k].1 as int),
    ensures
        has_hydra_comment_spec(s),
{
    assert(has_marker_in(s, lines));
}

} // verus!
