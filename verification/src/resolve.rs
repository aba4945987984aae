//! Picking the playable address out of what the resolution tool printed.
//!
//! The tool prints the address on a line of its own, at the end of its
//! output. An address that stands behind other text on its line does not
//! count.

use vstd::prelude::*;
use crate::duration::split_on;
use crate::error::ResolveError;
use crate::pattern::{cut, find_group, lemma_cut_splits, regex_capture, slice, Span};
use crate::text::{chars_of, starts_with};

verus! {

/// What an address begins with.
pub const URL_SCHEME: &'static str = "https://";

/// The character that ends a line.
pub const LINE_BREAK: char = '\n';

/// An address at the end of a text: from `https://` to the end of the line,
/// with nothing but white space behind it. What may stand in front of it on
/// its line the pattern does not say; [`pick_url`] looks at that.
pub const URL_PATTERN: &'static str = r"(https://.*)\s*$";

/// The whole match of [`URL_PATTERN`].
pub const WHOLE_MATCH: usize = 0;

/// How a run of the resolution tool ended.
#[derive(Clone, Debug, PartialEq, Eq)]
pub enum ResolverRun {
    /// The tool could not be started.
    LaunchFailed,
    /// The tool ran and ended; `output` is all that it wrote to its standard
    /// output.
    Exited { success: bool, output: String },
}

/// Whether `c` is white space: a character with the Unicode property
/// `White_Space`.
pub open spec fn is_white_space(c: char) -> bool {
    ||| '\u{9}' <= c <= '\u{d}'
    ||| c == ' '
    ||| c == '\u{85}'
    ||| c == '\u{a0}'
    ||| c == '\u{1680}'
    ||| '\u{2000}' <= c <= '\u{200a}'
    ||| c == '\u{2028}'
    ||| c == '\u{2029}'
    ||| c == '\u{202f}'
    ||| c == '\u{205f}'
    ||| c == '\u{3000}'
}

/// `text` without the white space at its start.
pub open spec fn trimmed_start(text: Seq<char>) -> Seq<char>
    decreases text.len(),
{
    if text.len() > 0 && is_white_space(text[0]) {
        trimmed_start(text.drop_first())
    } else {
        text
    }
}

/// `text` without the white space at its end.
pub open spec fn trimmed_end(text: Seq<char>) -> Seq<char>
    decreases text.len(),
{
    if text.len() > 0 && is_white_space(text.last()) {
        trimmed_end(text.drop_last())
    } else {
        text
    }
}

/// `text` without the white space at its start and at its end.
pub open spec fn trimmed(text: Seq<char>) -> Seq<char> {
    trimmed_end(trimmed_start(text))
}

/// Calls `str::trim`. Trusted: the result is the text without its leading and
/// trailing white space, as the documentation of `trim` says, where white
/// space is what the Unicode property `White_Space` covers.
#[verifier::external_body]
fn trim(text: &str) -> (inner: &str)
    ensures
        inner@ == trimmed(text@),
{
    text.trim()
}

/// Whether nothing but white space stands between the end of `text` and the
/// start of its last line: the text ends a line, or the line that it ends in
/// is blank so far.
pub open spec fn blank_since_line_start(text: Seq<char>) -> bool
    decreases text.len(),
{
    if text.len() == 0 {
        true
    } else if text.last() == LINE_BREAK {
        true
    } else {
        is_white_space(text.last()) && blank_since_line_start(text.drop_last())
    }
}

/// Whether the characters of `text` from `from` up to `to` are a line of it:
/// they hold no line break, they start the text or stand right behind a line
/// break, and they end the text or stand right in front of one.
pub open spec fn is_line(text: Seq<char>, from: int, to: int) -> bool {
    &&& 0 <= from <= to <= text.len()
    &&& from == 0 || text[from - 1] == LINE_BREAK
    &&& to == text.len() || text[to] == LINE_BREAK
    &&& forall|i: int| from <= i < to ==> text[i] != LINE_BREAK
}

/// Whether a line of `text`, without the white space around it, begins with
/// [`URL_SCHEME`].
pub open spec fn has_address_line(text: Seq<char>) -> bool {
    exists|from: int, to: int| #[trigger]
        is_line(text, from, to) && URL_SCHEME@.is_prefix_of(trimmed(text.subrange(from, to)))
}

/// Whether the stretch `span` of `output` is an address on a line of its own:
/// it lies within the output, only white space stands in front of it on its
/// line, and without the white space around it, it begins with
/// [`URL_SCHEME`].
pub open spec fn is_address(output: Seq<char>, span: Span) -> bool {
    &&& span.within(output)
    &&& blank_since_line_start(span.lead().cut(output))
    &&& URL_SCHEME@.is_prefix_of(trimmed(span.cut(output)))
}

/// The address that a run gave, where `found` is the stretch of its output
/// that [`URL_PATTERN`] matched.
pub open spec fn picked(output: Seq<char>, found: Option<Span>) -> Result<Seq<char>, ResolveError> {
    if output.len() == 0 {
        Err(ResolveError::NoOutputProduced)
    } else {
        match found {
            Some(span) => if is_address(output, span) {
                Ok(trimmed(span.cut(output)))
            } else {
                Err(ResolveError::NoUrlInOutput)
            },
            None => Err(ResolveError::NoUrlInOutput),
        }
    }
}

/// The stretch of `output` that [`URL_PATTERN`] matches.
pub open spec fn url_match(output: Seq<char>) -> Option<Span> {
    regex_capture(URL_PATTERN@, output, WHOLE_MATCH)
}

/// The address that a run of the tool stands for, or why it stands for none.
pub open spec fn resolution(run: ResolverRun) -> Result<Seq<char>, ResolveError> {
    match run {
        ResolverRun::LaunchFailed => Err(ResolveError::ResolutionToolFailed),
        ResolverRun::Exited { success, output } => if success {
            picked(output@, url_match(output@))
        } else {
            Err(ResolveError::ResolutionToolFailed)
        },
    }
}

/// The number of white-space characters that `text` begins with.
spec fn leading_blanks(text: Seq<char>) -> nat
    decreases text.len(),
{
    if text.len() > 0 && is_white_space(text[0]) {
        1 + leading_blanks(text.drop_first())
    } else {
        0
    }
}

/// Trimming the start of a text drops its leading white space and no more.
proof fn lemma_leading_blanks(text: Seq<char>)
    ensures
        leading_blanks(text) <= text.len(),
        trimmed_start(text) == text.skip(leading_blanks(text) as int),
        forall|i: int| 0 <= i < leading_blanks(text) ==> is_white_space(#[trigger] text[i]),
    decreases text.len(),
{
    if text.len() > 0 && is_white_space(text[0]) {
        let tail = text.drop_first();
        lemma_leading_blanks(tail);
        let k = leading_blanks(tail) as int;
        assert(tail.skip(k) == text.skip(k + 1));
        assert forall|i: int| 0 <= i < k + 1 implies is_white_space(#[trigger] text[i]) by {
            if i > 0 {
                assert(text[i] == tail[i - 1]);
            }
        }
    } else {
        assert(text.skip(0) == text);
    }
}

/// A text whose first `k` characters are white space and whose next one is
/// not loses exactly those `k` where its start is trimmed.
proof fn lemma_trimmed_start_skips(text: Seq<char>, k: int)
    requires
        0 <= k < text.len(),
        forall|i: int| 0 <= i < k ==> is_white_space(#[trigger] text[i]),
        !is_white_space(text[k]),
    ensures
        trimmed_start(text) == text.skip(k),
    decreases k,
{
    if k == 0 {
        assert(text.skip(0) == text);
    } else {
        let tail = text.drop_first();
        assert(is_white_space(text[0]));
        assert forall|i: int| 0 <= i < k - 1 implies is_white_space(#[trigger] tail[i]) by {
            assert(tail[i] == text[i + 1]);
        }
        lemma_trimmed_start_skips(tail, k - 1);
        assert(tail.skip(k - 1) == text.skip(k));
    }
}

/// Trimming the end of a text leaves a prefix of it that reaches behind every
/// character that is no white space.
proof fn lemma_trimmed_end(text: Seq<char>)
    ensures
        trimmed_end(text).is_prefix_of(text),
        forall|j: int|
            0 <= j < text.len() && !is_white_space(#[trigger] text[j]) ==> j < trimmed_end(
                text,
            ).len(),
    decreases text.len(),
{
    if text.len() > 0 && is_white_space(text.last()) {
        lemma_trimmed_end(text.drop_last());
        let kept = trimmed_end(text.drop_last());
        assert(kept == text.subrange(0, kept.len() as int));
        assert forall|j: int| 0 <= j < text.len() && !is_white_space(#[trigger] text[j]) implies j
            < kept.len() by {
            assert(text[j] == text.drop_last()[j]);
        }
    } else {
        assert(text == text.subrange(0, text.len() as int));
    }
}

/// Where the line starts that holds the position `at` of `text`.
spec fn line_start(text: Seq<char>, at: int) -> int
    decreases at,
{
    if at <= 0 {
        0
    } else if text[at - 1] == LINE_BREAK {
        at
    } else {
        line_start(text, at - 1)
    }
}

/// Where the line ends that holds the position `at` of `text`.
spec fn line_end(text: Seq<char>, at: int) -> int
    decreases text.len() - at,
{
    if at >= text.len() {
        text.len() as int
    } else if text[at] == LINE_BREAK {
        at
    } else {
        line_end(text, at + 1)
    }
}

/// The line that holds a position starts no earlier than any line start in
/// front of the position, and holds no line break up to the position.
proof fn lemma_line_start(text: Seq<char>, at: int, earlier: int)
    requires
        0 <= earlier <= at <= text.len(),
        earlier == 0 || text[earlier - 1] == LINE_BREAK,
    ensures
        earlier <= line_start(text, at) <= at,
        line_start(text, at) == 0 || text[line_start(text, at) - 1] == LINE_BREAK,
        forall|i: int| line_start(text, at) <= i < at ==> text[i] != LINE_BREAK,
    decreases at,
{
    if at > 0 && text[at - 1] != LINE_BREAK {
        lemma_line_start(text, at - 1, earlier);
    }
}

/// The line that holds a position ends no earlier than a stretch without
/// line breaks that starts at the position, and holds no line break from the
/// position on.
proof fn lemma_line_end(text: Seq<char>, at: int, clear: int)
    requires
        0 <= at <= clear <= text.len(),
        forall|i: int| at <= i < clear ==> text[i] != LINE_BREAK,
    ensures
        clear <= line_end(text, at) <= text.len(),
        line_end(text, at) == text.len() || text[line_end(text, at)] == LINE_BREAK,
        forall|i: int| at <= i < line_end(text, at) ==> text[i] != LINE_BREAK,
    decreases text.len() - at,
{
    if at < text.len() && text[at] != LINE_BREAK {
        if at < clear {
            lemma_line_end(text, at + 1, clear);
        } else {
            lemma_line_end(text, at + 1, at + 1);
        }
    }
}

/// The number of line breaks in `text`.
spec fn breaks(text: Seq<char>) -> nat
    decreases text.len(),
{
    if text.len() == 0 {
        0
    } else if text.last() == LINE_BREAK {
        breaks(text.drop_last()) + 1
    } else {
        breaks(text.drop_last())
    }
}

/// A longer prefix of a text holds at least the line breaks of a shorter
/// one, and the same number where none stands between their ends.
proof fn lemma_breaks_grow(text: Seq<char>, shorter: int, longer: int)
    requires
        0 <= shorter <= longer <= text.len(),
    ensures
        breaks(text.take(shorter)) <= breaks(text.take(longer)),
        (forall|i: int| shorter <= i < longer ==> text[i] != LINE_BREAK) ==> breaks(
            text.take(shorter),
        ) == breaks(text.take(longer)),
        (shorter < longer && text[shorter] == LINE_BREAK) ==> breaks(text.take(shorter)) < breaks(
            text.take(longer),
        ),
    decreases longer - shorter,
{
    if shorter < longer {
        lemma_breaks_grow(text, shorter, longer - 1);
        assert(text.take(longer).drop_last() == text.take(longer - 1));
        assert(text.take(longer).last() == text[longer - 1]);
    }
}

/// The lines of a text are the pieces between its line breaks: the line that
/// starts behind `k` line breaks is piece number `k`.
proof fn lemma_line_is_a_piece(text: Seq<char>, from: int, to: int)
    requires
        is_line(text, from, to),
    ensures
        split_on(text, LINE_BREAK).len() == breaks(text) + 1,
        breaks(text.take(from)) <= breaks(text),
        split_on(text, LINE_BREAK)[breaks(text.take(from)) as int] == text.subrange(from, to),
    decreases text.len(),
{
    let pieces = split_on(text, LINE_BREAK);
    let n = text.len() as int;
    assert(text.take(n) == text);
    lemma_breaks_grow(text, from, n);
    if n == 0 {
        assert(text.subrange(from, to) == Seq::<char>::empty());
    } else {
        let front = text.drop_last();
        if from < n {
            assert(text.take(from) == front.take(from));
        }
        if text.last() == LINE_BREAK {
            if from == n {
                lemma_line_end(front, 0, 0);
                lemma_line_is_a_piece(front, 0, line_end(front, 0));
                assert(text.subrange(from, to) == Seq::<char>::empty());
            } else {
                assert(to <= n - 1) by {
                    if to == n {
                        assert(text[n - 1] != LINE_BREAK);
                    }
                }
                assert(is_line(front, from, to));
                lemma_line_is_a_piece(front, from, to);
                assert(front.subrange(from, to) == text.subrange(from, to));
            }
        } else {
            assert(from < n);
            if to == n {
                assert(is_line(front, from, n - 1));
                lemma_line_is_a_piece(front, from, n - 1);
                assert(front.take(n - 1) == front);
                lemma_breaks_grow(front, from, n - 1);
                assert(front.subrange(from, n - 1).push(text.last()) == text.subrange(from, n));
            } else {
                assert(to < n - 1);
                assert(is_line(front, from, to));
                lemma_line_is_a_piece(front, from, to);
                assert(front.take(n - 1) == front);
                lemma_breaks_grow(front, from, to);
                lemma_breaks_grow(front, to, n - 1);
                assert(front.subrange(from, to) == text.subrange(from, to));
            }
        }
    }
}

/// Whether one of the pieces that the line breaks cut `text` into begins
/// with [`URL_SCHEME`], white space aside.
pub open spec fn has_address_piece(text: Seq<char>) -> bool {
    exists|i: int|
        0 <= i < split_on(text, LINE_BREAK).len() && URL_SCHEME@.is_prefix_of(
            trimmed(#[trigger] split_on(text, LINE_BREAK)[i]),
        )
}

/// A text with an address line has the same line among the pieces that its
/// line breaks cut it into.
pub proof fn lemma_address_line_is_a_piece(text: Seq<char>)
    requires
        has_address_line(text),
    ensures
        has_address_piece(text),
{
    let (from, to) = choose|from: int, to: int| #[trigger]
        is_line(text, from, to) && URL_SCHEME@.is_prefix_of(trimmed(text.subrange(from, to)));
    lemma_line_is_a_piece(text, from, to);
    let i = breaks(text.take(from)) as int;
    assert(split_on(text, LINE_BREAK)[i] == text.subrange(from, to));
}

/// A text that is blank since the start of its last line has a line start
/// behind which it holds nothing but white space.
proof fn lemma_blank_since(text: Seq<char>) -> (from: int)
    requires
        blank_since_line_start(text),
    ensures
        0 <= from <= text.len(),
        from == 0 || text[from - 1] == LINE_BREAK,
        forall|i: int| from <= i < text.len() ==> is_white_space(#[trigger] text[i]),
    decreases text.len(),
{
    if text.len() == 0 {
        0
    } else if text.last() == LINE_BREAK {
        text.len() as int
    } else {
        let from = lemma_blank_since(text.drop_last());
        assert forall|i: int| from <= i < text.len() implies is_white_space(#[trigger] text[i]) by {
            if i < text.len() - 1 {
                assert(text[i] == text.drop_last()[i]);
            }
        }
        from
    }
}

/// A text that holds [`URL_SCHEME`] at `at`, with nothing but white space
/// between `at` and a line start in front of it, has a line that begins with
/// the scheme once the white space around it is gone.
proof fn lemma_line_of_address(text: Seq<char>, at: int, earlier: int)
    requires
        0 <= earlier <= at,
        at + URL_SCHEME@.len() <= text.len(),
        earlier == 0 || text[earlier - 1] == LINE_BREAK,
        forall|i: int| earlier <= i < at ==> is_white_space(#[trigger] text[i]),
        forall|j: int| 0 <= j < URL_SCHEME@.len() ==> text[at + j] == #[trigger] URL_SCHEME@[j],
    ensures
        has_address_line(text),
{
    reveal_strlit("https://");
    let scheme = URL_SCHEME@;
    assert(scheme.len() == 8);
    assert forall|i: int| at <= i < at + 8 implies text[i] != LINE_BREAK by {
        assert(text[at + (i - at)] == scheme[i - at]);
    }
    lemma_line_start(text, at, earlier);
    lemma_line_end(text, at, at + 8);
    let from = line_start(text, at);
    let to = line_end(text, at);
    assert(is_line(text, from, to));
    let line = text.subrange(from, to);
    let k = at - from;
    assert forall|i: int| 0 <= i < k implies is_white_space(#[trigger] line[i]) by {
        assert(line[i] == text[from + i]);
    }
    assert(line[k] == scheme[0]) by {
        assert(text[at + 0] == scheme[0]);
    }
    lemma_trimmed_start_skips(line, k);
    let body = line.skip(k);
    assert forall|j: int| 0 <= j < 8 implies body[j] == scheme[j] by {
        assert(body[j] == text[at + j]);
    }
    lemma_trimmed_end(body);
    assert(!is_white_space(body[7]));
    let kept = trimmed_end(body);
    assert(kept.len() >= 8);
    assert(kept == body.subrange(0, kept.len() as int));
    assert(scheme == kept.subrange(0, 8));
    assert(trimmed(line) == kept);
}

/// An address that was picked begins with [`URL_SCHEME`] and stands on a
/// line of the output that, without the white space around it, begins with
/// it too. So an output in which no line begins with the scheme, white space
/// aside, gives no address.
pub proof fn lemma_picked_starts_a_line(output: Seq<char>, found: Option<Span>)
    requires
        picked(output, found) is Ok,
    ensures
        URL_SCHEME@.is_prefix_of(picked(output, found)->Ok_0),
        has_address_line(output),
{
    reveal_strlit("https://");
    let scheme = URL_SCHEME@;
    let span = found->0;
    let before = span.lead().cut(output);
    let matched = span.cut(output);
    lemma_cut_splits(output, span);
    let earlier = lemma_blank_since(before);
    lemma_leading_blanks(matched);
    let k = leading_blanks(matched) as int;
    let body = matched.skip(k);
    lemma_trimmed_end(body);
    let kept = trimmed_end(body);
    assert(kept == trimmed(matched));
    assert(kept == body.subrange(0, kept.len() as int));
    assert(scheme == kept.subrange(0, 8));
    let at = before.len() + k;
    assert forall|j: int| 0 <= j < scheme.len() implies output[at + j] == #[trigger] scheme[j] by {
        assert(kept.subrange(0, 8)[j] == kept[j]);
        assert(kept[j] == body[j]);
        assert(body[j] == matched[k + j]);
        assert(output[at + j] == matched[k + j]);
    }
    assert forall|i: int| earlier <= i < at implies is_white_space(#[trigger] output[i]) by {
        if i < before.len() {
            assert(output[i] == before[i]);
        } else {
            assert(output[i] == matched[i - before.len()]);
        }
    }
    if earlier > 0 {
        assert(output[earlier - 1] == before[earlier - 1]);
    }
    lemma_line_of_address(output, at, earlier);
}

/// A run gives an address only where a line of what it printed begins with
/// [`URL_SCHEME`], white space aside.
pub proof fn lemma_address_starts_a_line(run: ResolverRun)
    requires
        resolution(run) is Ok,
    ensures
        run is Exited,
        has_address_line(run->output@),
        has_address_piece(run->output@),
        URL_SCHEME@.is_prefix_of(resolution(run)->Ok_0),
{
    lemma_picked_starts_a_line(run->output@, url_match(run->output@));
    lemma_address_line_is_a_piece(run->output@);
}

/// A run that ended well and printed something in which no line begins with
/// [`URL_SCHEME`], white space aside, gives `NoUrlInOutput`, whether the
/// lines are told by [`is_line`] or as the pieces between the line breaks;
/// so does one in whose output the pattern finds nothing.
pub proof fn lemma_output_without_address(run: ResolverRun)
    requires
        run matches ResolverRun::Exited { success, output } && success && output@.len() > 0 && (
        !has_address_line(output@) || !has_address_piece(output@) || url_match(output@) is None),
    ensures
        resolution(run) == Err::<Seq<char>, ResolveError>(ResolveError::NoUrlInOutput),
{
    if resolution(run) is Ok {
        lemma_address_starts_a_line(run);
    }
}

/// A run gives an address exactly where it ended well and the pattern finds
/// an address on a line of its own in what it printed; a run that failed
/// gives `ResolutionToolFailed` whatever it printed.
pub proof fn lemma_resolution_cases(run: ResolverRun)
    ensures
        resolution(run) is Ok <==> (run matches ResolverRun::Exited { success, output } && success
            && output@.len() > 0 && url_match(output@) is Some && is_address(
            output@,
            url_match(output@)->0,
        )),
        !(run matches ResolverRun::Exited { success, .. } && success) ==> resolution(run) == Err::<
            Seq<char>,
            ResolveError,
        >(ResolveError::ResolutionToolFailed),
{
}

/// What picking an address gave, over mathematical text.
pub open spec fn address_view(found: Result<String, ResolveError>) -> Result<
    Seq<char>,
    ResolveError,
> {
    match found {
        Ok(address) => Ok(address@),
        Err(e) => Err(e),
    }
}

/// Whether `c` is white space.
fn is_space(c: char) -> (space: bool)
    ensures
        space == is_white_space(c),
{
    ('\u{9}' <= c && c <= '\u{d}') || c == ' ' || c == '\u{85}' || c == '\u{a0}' || c == '\u{1680}'
        || ('\u{2000}' <= c && c <= '\u{200a}') || c == '\u{2028}' || c == '\u{2029}' || c
        == '\u{202f}' || c == '\u{205f}' || c == '\u{3000}'
}

/// Whether nothing but white space stands between the end of `text` and the
/// start of its last line.
fn ends_blank(text: &str) -> (blank: bool)
    ensures
        blank == blank_since_line_start(text@),
{
    let chars = chars_of(text);
    let mut i: usize = chars.len();
    proof {
        assert(chars@.take(i as int) == chars@);
    }
    while i > 0
        invariant
            i <= chars.len(),
            chars@ == text@,
            blank_since_line_start(text@) == blank_since_line_start(chars@.take(i as int)),
        decreases i,
    {
        let c = chars[i - 1];
        proof {
            assert(chars@.take(i as int).last() == c);
            assert(chars@.take(i as int).drop_last() == chars@.take(i - 1));
        }
        if c == LINE_BREAK {
            return true;
        }
        if !is_space(c) {
            return false;
        }
        i = i - 1;
    }
    true
}

/// Decides what the output of a successful run gives, once the pattern has
/// been looked for: `found` is the stretch that it matched, if any.
///
/// Empty output gives `NoOutputProduced`. A match counts as an address where
/// only white space stands in front of it on its line and, without the white
/// space around it, it begins with `https://`; the address is then the match
/// without that white space. Anything else gives `NoUrlInOutput`.
pub fn pick_url(output: &str, found: Option<Span>) -> (address: Result<String, ResolveError>)
    ensures
        address_view(address) == picked(output@, found),
{
    if output.is_empty() {
        return Err(ResolveError::NoOutputProduced);
    }
    let span = match found {
        Some(span) => span,
        None => {
            return Err(ResolveError::NoUrlInOutput);
        },
    };
    let matched = match cut(output, span) {
        Some(matched) => matched,
        None => {
            return Err(ResolveError::NoUrlInOutput);
        },
    };
    proof {
        lemma_cut_splits(output@, span);
    }
    let before = slice(output, Span { start: 0, end: span.start });
    let inner = trim(matched);
    if ends_blank(before) && starts_with(inner, URL_SCHEME) {
        Ok(inner.to_owned())
    } else {
        Err(ResolveError::NoUrlInOutput)
    }
}

/// Reads the playable address out of a run of the resolution tool.
///
/// A run that could not be started or that ended with a failure status gives
/// `ResolutionToolFailed`. Otherwise the output decides, as [`pick_url`] says.
pub fn resolve_media_url(run: &ResolverRun) -> (found: Result<String, ResolveError>)
    ensures
        address_view(found) == resolution(*run),
{
    match run {
        ResolverRun::LaunchFailed => Err(ResolveError::ResolutionToolFailed),
        ResolverRun::Exited { success, output } => {
            if !*success {
                return Err(ResolveError::ResolutionToolFailed);
            }
            let found = match find_group(URL_PATTERN, output.as_str(), WHOLE_MATCH) {
                Some(capture) => Some(capture.span),
                None => None,
            };
            pick_url(output.as_str(), found)
        },
    }
}

} // verus!
