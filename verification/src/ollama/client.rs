//! The exchange with the scoring service: what is asked of it, and how its
//! answer is read, repaired once where it does not read, held against what
//! was asked, and reduced to the scores worth keeping.

use super::json::{
    json_rows, json_text, read_rows, write_rows, FieldModel, JsonField, JsonMember, MemberModel,
};
use super::ollama_types::{
    NameModel, OllamaNameInput, OllamaRequest, Options, ProcessScore, ScoreModel,
};
use super::prompts::PROCESS_ANALYSIS_PROMPT;
use crate::os_tooling::resources::process::{GroupModel, OsProcessGroup};
use crate::text::{chars_of, str_equal};
use vstd::prelude::*;

verus! {

/// A score is kept when it is above this.
pub const SUSPICION_THRESHOLD: u8 = 60;

/// The greatest score.
pub const MAX_SCORE: u8 = 100;

/// What stands in a prompt between the instructions and the processes.
pub const PROMPT_INPUT_HEADING: &'static str = "\n\nInput processes to analyze:\n";

/// Why a round with the scoring service brought no scores.
#[derive(Debug, Clone, Copy, PartialEq, Eq, Structural)]
pub enum ScoringError {
    /// The request did not bring an answer.
    RequestFailed,
    /// The answer did not read as scores, even after one repair.
    MalformedResponse,
}

impl ScoringError {
    /// What the error says.
    pub fn message(&self) -> (text: &'static str)
        ensures
            text@ == match *self {
                ScoringError::RequestFailed => "The scoring service did not answer"@,
                ScoringError::MalformedResponse => "Failed to parse LLM response as ProcessScore array"@,
            },
    {
        match self {
            ScoringError::RequestFailed => "The scoring service did not answer",
            ScoringError::MalformedResponse => "Failed to parse LLM response as ProcessScore array",
        }
    }
}

/// What is sent of a group: the pid and the name of its parent.
pub open spec fn name_of(group: GroupModel) -> NameModel {
    NameModel { pid: group.parent_process.pid, name: group.parent_process.name }
}

/// The pid and name of the parent of every group, in the order of the
/// groups. Nothing else of a process is sent.
pub fn project_names(processes: &Vec<OsProcessGroup>) -> (names: Vec<OllamaNameInput>)
    ensures
        names.deep_view() == processes.deep_view().map_values(|group: GroupModel| name_of(group)),
{
    let mut names: Vec<OllamaNameInput> = Vec::new();
    let n = processes.len();
    let mut i: usize = 0;
    while i < n
        invariant
            n == processes.len(),
            i <= n,
            names.len() == i,
            forall|j: int| 0 <= j < i ==> (#[trigger] names@[j])@ == name_of(processes@[j]@),
        decreases n - i,
    {
        let parent = &processes[i].parent_process;
        names.push(OllamaNameInput { pid: parent.pid, name: parent.name.clone() });
        i = i + 1;
    }
    names
}

/// The object that stands for one process in a request.
pub open spec fn name_row(name: NameModel) -> Seq<MemberModel> {
    seq![
        MemberModel { key: "pid"@, value: FieldModel::Number(Some(name.pid as u64)) },
        MemberModel { key: "name"@, value: FieldModel::Text(name.name) },
    ]
}

/// The objects that stand for the processes in a request.
pub fn name_rows(names: &Vec<OllamaNameInput>) -> (rows: Vec<Vec<JsonMember>>)
    ensures
        rows.deep_view() == names.deep_view().map_values(|name: NameModel| name_row(name)),
{
    let mut rows: Vec<Vec<JsonMember>> = Vec::new();
    let n = names.len();
    let mut i: usize = 0;
    while i < n
        invariant
            n == names.len(),
            i <= n,
            rows.len() == i,
            forall|j: int| 0 <= j < i ==> (#[trigger] rows@[j]).deep_view() == name_row(names@[j]@),
        decreases n - i,
    {
        let mut row: Vec<JsonMember> = Vec::new();
        row.push(
            JsonMember {
                key: String::from_str("pid"),
                value: JsonField::Number(Some(names[i].pid as u64)),
            },
        );
        row.push(
            JsonMember {
                key: String::from_str("name"),
                value: JsonField::Text(names[i].name.clone()),
            },
        );
        rows.push(row);
        i = i + 1;
    }
    rows
}

/// The prompt that asks for scores of the given processes: the
/// instructions, a heading, and the processes as a JSON array.
pub open spec fn prompt_for(names: Seq<NameModel>) -> Seq<char> {
    PROCESS_ANALYSIS_PROMPT@ + PROMPT_INPUT_HEADING@ + json_text(
        names.map_values(|name: NameModel| name_row(name)),
    )
}

/// The request that asks `model` for scores of the given processes, with a
/// context window of `num_ctx` and without streaming.
pub fn analysis_request<'a>(names: &Vec<OllamaNameInput>, model: &'a str, num_ctx: u32) -> (request:
    OllamaRequest<'a>)
    ensures
        request.model@ == model@,
        request.prompt@ == prompt_for(names.deep_view()),
        !request.stream,
        request.options.num_ctx == num_ctx,
{
    let rows = name_rows(names);
    let listing = write_rows(&rows);
    let mut prompt = String::from_str(PROCESS_ANALYSIS_PROMPT);
    prompt.append(PROMPT_INPUT_HEADING);
    prompt.append(listing.as_str());
    OllamaRequest { model, prompt, stream: false, options: Options { num_ctx } }
}

/// The value of the first member of `row` under `key`.
pub open spec fn member_value(row: Seq<MemberModel>, key: Seq<char>) -> Option<FieldModel>
    decreases row.len(),
{
    if row.len() == 0 {
        None
    } else if row[0].key == key {
        Some(row[0].value)
    } else {
        member_value(row.drop_first(), key)
    }
}

/// The yes or no of a record: the value under the first of the names
/// `isMalicious`, `is_malicious`, `isMalacious`, `ismalicious` that the
/// record has.
pub open spec fn flag_value(row: Seq<MemberModel>) -> Option<FieldModel> {
    if member_value(row, "isMalicious"@) is Some {
        member_value(row, "isMalicious"@)
    } else if member_value(row, "is_malicious"@) is Some {
        member_value(row, "is_malicious"@)
    } else if member_value(row, "isMalacious"@) is Some {
        member_value(row, "isMalacious"@)
    } else {
        member_value(row, "ismalicious"@)
    }
}

/// The score of a record. A record with a `score` must hold a whole number
/// from 0 to 100 there. A record without one must hold a yes or no, which
/// counts as 100 or 0.
pub open spec fn verdict(row: Seq<MemberModel>) -> Option<u8> {
    match member_value(row, "score"@) {
        Some(FieldModel::Number(Some(n))) => if n <= MAX_SCORE {
            Some(n as u8)
        } else {
            None
        },
        Some(_) => None,
        None => match flag_value(row) {
            Some(FieldModel::Bool(flag)) => Some(
                if flag {
                    MAX_SCORE
                } else {
                    0
                },
            ),
            _ => None,
        },
    }
}

/// The pid of a record: a whole number that fits 32 bits.
pub open spec fn pid_of(row: Seq<MemberModel>) -> Option<u32> {
    match member_value(row, "pid"@) {
        Some(FieldModel::Number(Some(n))) => if n <= u32::MAX {
            Some(n as u32)
        } else {
            None
        },
        _ => None,
    }
}

/// The text of a record under `key`.
pub open spec fn text_of(row: Seq<MemberModel>, key: Seq<char>) -> Option<Seq<char>> {
    match member_value(row, key) {
        Some(FieldModel::Text(text)) => Some(text),
        _ => None,
    }
}

/// The score that a record states, where it has a pid, a name, a score
/// and a reason of the right kinds. Other members are passed over.
pub open spec fn decoded(row: Seq<MemberModel>) -> Option<ScoreModel> {
    if pid_of(row) is Some && text_of(row, "name"@) is Some && verdict(row) is Some && text_of(
        row,
        "reason"@,
    ) is Some {
        Some(
            ScoreModel {
                pid: pid_of(row)->0,
                name: text_of(row, "name"@)->0,
                score: verdict(row)->0,
                reason: text_of(row, "reason"@)->0,
            },
        )
    } else {
        None
    }
}

/// The scores that the records state, where every record states one.
pub open spec fn decoded_all(rows: Seq<Seq<MemberModel>>) -> Option<Seq<ScoreModel>> {
    if forall|i: int| 0 <= i < rows.len() ==> decoded(#[trigger] rows[i]) is Some {
        Some(rows.map_values(|row: Seq<MemberModel>| decoded(row)->0))
    } else {
        None
    }
}

/// A process with this pid was among those sent.
pub open spec fn was_sent(sent: Seq<NameModel>, pid: u32) -> bool {
    exists|i: int| 0 <= i < sent.len() && (#[trigger] sent[i]).pid == pid
}

/// The scores of processes that were sent.
pub open spec fn known(sent: Seq<NameModel>) -> spec_fn(ScoreModel) -> bool {
    |score: ScoreModel| was_sent(sent, score.pid)
}

/// The scores above the threshold.
pub open spec fn suspicious() -> spec_fn(ScoreModel) -> bool {
    |score: ScoreModel| score.score > SUSPICION_THRESHOLD
}

/// The scores that are kept: those of processes that were sent, and of
/// these the ones above the threshold, in the order of the answer.
pub open spec fn selected(scores: Seq<ScoreModel>, sent: Seq<NameModel>) -> Seq<ScoreModel> {
    scores.filter(known(sent)).filter(suspicious())
}

/// What an answer that was read comes to: the kept scores, where every
/// record states a score.
pub open spec fn reconciled(rows: Seq<Seq<MemberModel>>, sent: Seq<NameModel>) -> Option<
    Seq<ScoreModel>,
> {
    match decoded_all(rows) {
        Some(scores) => Some(selected(scores, sent)),
        None => None,
    }
}

/// Every kept score belongs to a process that was sent and is above the
/// threshold: an answer cannot add a process.
pub proof fn lemma_selected_were_sent(scores: Seq<ScoreModel>, sent: Seq<NameModel>)
    ensures
        forall|i: int|
            0 <= i < selected(scores, sent).len() ==> {
                let kept = #[trigger] selected(scores, sent)[i];
                &&& was_sent(sent, kept.pid)
                &&& kept.score > SUSPICION_THRESHOLD
                &&& scores.contains(kept)
            },
{
    let validated = scores.filter(known(sent));
    assert forall|i: int| 0 <= i < selected(scores, sent).len() implies {
        let kept = #[trigger] selected(scores, sent)[i];
        &&& was_sent(sent, kept.pid)
        &&& kept.score > SUSPICION_THRESHOLD
        &&& scores.contains(kept)
    } by {
        let kept = selected(scores, sent)[i];
        validated.lemma_filter_pred(suspicious(), i);
        validated.lemma_filter_contains_rev(suspicious(), kept);
        let k = choose|k: int| 0 <= k < validated.len() && validated[k] == kept;
        scores.lemma_filter_pred(known(sent), k);
        scores.lemma_filter_contains_rev(known(sent), kept);
    }
}

/// The value of the first member of `row` under `key`.
fn find_member<'a>(row: &'a Vec<JsonMember>, key: &str) -> (found: Option<&'a JsonField>)
    ensures
        match found {
            Some(value) => member_value(row.deep_view(), key@) == Some(value@),
            None => member_value(row.deep_view(), key@) is None,
        },
{
    let ghost members = row.deep_view();
    let n = row.len();
    let mut i: usize = 0;
    assert(members.skip(0) =~= members);
    while i < n
        invariant
            n == row.len(),
            i <= n,
            members == row.deep_view(),
            member_value(members, key@) == member_value(members.skip(i as int), key@),
        decreases n - i,
    {
        if str_equal(row[i].key.as_str(), key) {
            return Some(&row[i].value);
        }
        assert(members.skip(i as int).drop_first() =~= members.skip(i + 1));
        i = i + 1;
    }
    None
}

/// The text of a record under `key`.
fn find_text(row: &Vec<JsonMember>, key: &str) -> (found: Option<String>)
    ensures
        match found {
            Some(text) => text_of(row.deep_view(), key@) == Some(text@),
            None => text_of(row.deep_view(), key@) is None,
        },
{
    match find_member(row, key) {
        Some(JsonField::Text(text)) => Some(text.clone()),
        _ => None,
    }
}

/// The yes or no of a record.
fn find_flag(row: &Vec<JsonMember>) -> (found: Option<&JsonField>)
    ensures
        match found {
            Some(value) => flag_value(row.deep_view()) == Some(value@),
            None => flag_value(row.deep_view()) is None,
        },
{
    match find_member(row, "isMalicious") {
        Some(value) => Some(value),
        None => match find_member(row, "is_malicious") {
            Some(value) => Some(value),
            None => match find_member(row, "isMalacious") {
                Some(value) => Some(value),
                None => find_member(row, "ismalicious"),
            },
        },
    }
}

/// The score of a record.
fn find_verdict(row: &Vec<JsonMember>) -> (found: Option<u8>)
    ensures
        found == verdict(row.deep_view()),
{
    match find_member(row, "score") {
        Some(JsonField::Number(Some(n))) => if *n <= MAX_SCORE as u64 {
            Some(*n as u8)
        } else {
            None
        },
        Some(_) => None,
        None => match find_flag(row) {
            Some(JsonField::Bool(flag)) => Some(
                if *flag {
                    MAX_SCORE
                } else {
                    0
                },
            ),
            _ => None,
        },
    }
}

/// The score that a record states, where it states one.
pub fn decode_record(row: &Vec<JsonMember>) -> (score: Option<ProcessScore>)
    ensures
        match score {
            Some(stated) => decoded(row.deep_view()) == Some(stated@),
            None => decoded(row.deep_view()) is None,
        },
{
    let pid: u32 = match find_member(row, "pid") {
        Some(JsonField::Number(Some(n))) => if *n <= u32::MAX as u64 {
            *n as u32
        } else {
            return None;
        },
        _ => {
            return None;
        },
    };
    let name = match find_text(row, "name") {
        Some(name) => name,
        None => {
            return None;
        },
    };
    let score = match find_verdict(row) {
        Some(score) => score,
        None => {
            return None;
        },
    };
    let reason = match find_text(row, "reason") {
        Some(reason) => reason,
        None => {
            return None;
        },
    };
    Some(ProcessScore { pid, name, score, reason })
}

/// Whether a process with this pid was among those sent.
fn pid_was_sent(sent: &Vec<OllamaNameInput>, pid: u32) -> (found: bool)
    ensures
        found == was_sent(sent.deep_view(), pid),
{
    let n = sent.len();
    let mut i: usize = 0;
    while i < n
        invariant
            n == sent.len(),
            i <= n,
            forall|j: int| 0 <= j < i ==> (#[trigger] sent.deep_view()[j]).pid != pid,
        decreases n - i,
    {
        if sent[i].pid == pid {
            assert(sent.deep_view()[i as int].pid == pid);
            return true;
        }
        i = i + 1;
    }
    false
}

/// Holds an answer that was read against what was asked. Where every
/// record states a score, the scores of processes that were not sent are
/// dropped, and of the others those above the threshold are kept. Where a
/// record states none, the answer as a whole is refused.
pub fn reconcile(rows: &Vec<Vec<JsonMember>>, sent: &Vec<OllamaNameInput>) -> (kept: Option<
    Vec<ProcessScore>,
>)
    ensures
        match kept {
            Some(scores) => reconciled(rows.deep_view(), sent.deep_view()) == Some(
                scores.deep_view(),
            ),
            None => reconciled(rows.deep_view(), sent.deep_view()) is None,
        },
{
    let ghost read = rows.deep_view();
    let ghost asked = sent.deep_view();
    let ghost stated = read.map_values(|row: Seq<MemberModel>| decoded(row)->0);
    let mut kept: Vec<ProcessScore> = Vec::new();
    let n = rows.len();
    let mut i: usize = 0;
    assert(stated.take(0) =~= Seq::<ScoreModel>::empty());
    assert(kept.deep_view() =~= selected(stated.take(0), asked)) by {
        reveal(Seq::filter);
    }
    while i < n
        invariant
            n == rows.len(),
            i <= n,
            read == rows.deep_view(),
            asked == sent.deep_view(),
            stated == read.map_values(|row: Seq<MemberModel>| decoded(row)->0),
            forall|j: int| 0 <= j < i ==> decoded(#[trigger] read[j]) is Some,
            kept.deep_view() == selected(stated.take(i as int), asked),
        decreases n - i,
    {
        assert(read[i as int] == rows@[i as int].deep_view());
        match decode_record(&rows[i]) {
            None => {
                assert(decoded(read[i as int]) is None);
                return None;
            },
            Some(score) => {
                proof {
                    assert(stated[i as int] == score@);
                    assert(stated.take(i + 1) =~= stated.take(i as int).push(score@));
                    stated.take(i as int).lemma_filter_push(score@, known(asked));
                    stated.take(i as int).filter(known(asked)).lemma_filter_push(
                        score@,
                        suspicious(),
                    );
                }
                let ghost held = kept.deep_view();
                if pid_was_sent(sent, score.pid) && score.score > SUSPICION_THRESHOLD {
                    kept.push(score);
                    assert(kept.deep_view() =~= held.push(score@));
                }
            },
        }
        i = i + 1;
    }
    assert(stated.take(n as int) =~= stated);
    Some(kept)
}

/// The one-character ellipsis.
pub const ELLIPSIS: char = '\u{2026}';

/// The characters that may stand between the parts of a JSON text.
pub open spec fn is_space(c: char) -> bool {
    c == ' ' || c == '\t' || c == '\n' || c == '\r'
}

/// How many spaces `s` begins with.
pub open spec fn leading_spaces(s: Seq<char>) -> nat
    decreases s.len(),
{
    if s.len() > 0 && is_space(s[0]) {
        1 + leading_spaces(s.drop_first())
    } else {
        0
    }
}

/// How many spaces `s` ends with.
pub open spec fn trailing_spaces(s: Seq<char>) -> nat
    decreases s.len(),
{
    if s.len() > 0 && is_space(s.last()) {
        1 + trailing_spaces(s.drop_last())
    } else {
        0
    }
}

/// `s` without the spaces at its two ends.
pub open spec fn trimmed(s: Seq<char>) -> Seq<char> {
    if leading_spaces(s) == s.len() {
        Seq::empty()
    } else {
        s.subrange(leading_spaces(s) as int, s.len() - trailing_spaces(s))
    }
}

/// `s` begins with three dots.
pub open spec fn starts_with_dots(s: Seq<char>) -> bool {
    s.len() >= 3 && s[0] == '.' && s[1] == '.' && s[2] == '.'
}

/// `s` without the marks of a cut: every run of three dots, read from the
/// left, and every one-character ellipsis.
pub open spec fn without_markers(s: Seq<char>) -> Seq<char>
    decreases s.len(),
{
    if s.len() == 0 {
        s
    } else if starts_with_dots(s) {
        without_markers(s.skip(3))
    } else if s[0] == ELLIPSIS {
        without_markers(s.skip(1))
    } else {
        seq![s[0]] + without_markers(s.skip(1))
    }
}

/// An answer after the one repair: the spaces at its ends are taken off,
/// then the marks of a cut are taken out.
pub open spec fn repaired(text: Seq<char>) -> Seq<char> {
    without_markers(trimmed(text))
}

/// Whether `c` may stand between the parts of a JSON text.
fn space(c: char) -> (yes: bool)
    ensures
        yes == is_space(c),
{
    c == ' ' || c == '\t' || c == '\n' || c == '\r'
}

/// The leading spaces of a sequence whose first `i` characters are spaces.
proof fn lemma_leading_spaces(s: Seq<char>, i: int)
    requires
        0 <= i <= s.len(),
        forall|j: int| 0 <= j < i ==> is_space(#[trigger] s[j]),
    ensures
        leading_spaces(s) == i + leading_spaces(s.skip(i)),
    decreases i,
{
    if i == 0 {
        assert(s.skip(0) =~= s);
    } else {
        assert forall|j: int| 0 <= j < i - 1 implies is_space(#[trigger] s.drop_first()[j]) by {
            assert(s.drop_first()[j] == s[j + 1]);
        }
        lemma_leading_spaces(s.drop_first(), i - 1);
        assert(s.drop_first().skip(i - 1) =~= s.skip(i));
    }
}

/// The trailing spaces of a sequence whose characters from `i` on are
/// spaces.
proof fn lemma_trailing_spaces(s: Seq<char>, i: int)
    requires
        0 <= i <= s.len(),
        forall|j: int| i <= j < s.len() ==> is_space(#[trigger] s[j]),
    ensures
        trailing_spaces(s) == s.len() - i + trailing_spaces(s.take(i)),
    decreases s.len() - i,
{
    if i == s.len() {
        assert(s.take(i) =~= s);
    } else {
        assert forall|j: int| i <= j < s.len() - 1 implies is_space(
            #[trigger] s.drop_last()[j],
        ) by {
            assert(s.drop_last()[j] == s[j]);
        }
        lemma_trailing_spaces(s.drop_last(), i);
        assert(s.drop_last().take(i) =~= s.take(i));
    }
}

/// The one repair of an answer that does not read: takes the spaces off its
/// ends and the marks of a cut out of it.
pub fn repair(text: &str) -> (mended: String)
    ensures
        mended@ == repaired(text@),
{
    let chars = chars_of(text);
    let ghost s = text@;
    let n = chars.len();
    let mut start: usize = 0;
    while start < n && space(chars[start])
        invariant
            n == chars.len(),
            chars@ == s,
            start <= n,
            forall|j: int| 0 <= j < start ==> is_space(#[trigger] s[j]),
        decreases n - start,
    {
        start = start + 1;
    }
    proof {
        lemma_leading_spaces(s, start as int);
        if start < n {
            assert(s.skip(start as int)[0] == s[start as int]);
        }
    }
    let mut mended = String::new();
    if start == n {
        assert(without_markers(Seq::<char>::empty()) =~= Seq::<char>::empty());
        return mended;
    }
    let mut end: usize = n;
    while end > start + 1 && space(chars[end - 1])
        invariant
            n == chars.len(),
            chars@ == s,
            start < end <= n,
            !is_space(s[start as int]),
            forall|j: int| end <= j < n ==> is_space(#[trigger] s[j]),
        decreases end,
    {
        end = end - 1;
    }
    proof {
        lemma_trailing_spaces(s, end as int);
        assert(s.take(end as int).last() == s[end - 1]);
        assert(!is_space(s[end - 1]));
        assert(trimmed(s) == s.subrange(start as int, end as int));
    }
    let ghost body = s.subrange(start as int, end as int);
    let mut from: usize = start;
    let mut i: usize = start;
    assert(s.subrange(i as int, end as int) =~= body);
    assert(mended@ + s.subrange(from as int, i as int) + without_markers(body) =~= without_markers(
        body,
    ));
    while i < end
        invariant
            n == chars.len(),
            chars@ == s,
            s == text@,
            start <= from <= i <= end <= n,
            body == s.subrange(start as int, end as int),
            without_markers(body) == mended@ + s.subrange(from as int, i as int) + without_markers(
                s.subrange(i as int, end as int),
            ),
        decreases end - i,
    {
        let ghost rest = s.subrange(i as int, end as int);
        assert(rest[0] == s[i as int]);
        if end - i >= 3 && chars[i] == '.' && chars[i + 1] == '.' && chars[i + 2] == '.' {
            assert(rest[1] == s[i + 1] && rest[2] == s[i + 2]);
            mended.append(text.substring_char(from, i));
            assert(rest.skip(3) =~= s.subrange(i + 3, end as int));
            i = i + 3;
            from = i;
            assert(s.subrange(from as int, i as int) =~= Seq::<char>::empty());
        } else if chars[i] == ELLIPSIS {
            mended.append(text.substring_char(from, i));
            assert(rest.skip(1) =~= s.subrange(i + 1, end as int));
            i = i + 1;
            from = i;
            assert(s.subrange(from as int, i as int) =~= Seq::<char>::empty());
        } else {
            assert(!starts_with_dots(rest)) by {
                if rest.len() >= 3 {
                    assert(rest[1] == s[i + 1] && rest[2] == s[i + 2]);
                }
            }
            assert(rest.skip(1) =~= s.subrange(i + 1, end as int));
            assert(s.subrange(from as int, i + 1) =~= s.subrange(from as int, i as int) + seq![
                s[i as int],
            ]);
            i = i + 1;
        }
    }
    assert(without_markers(s.subrange(end as int, end as int)) =~= Seq::<char>::empty());
    mended.append(text.substring_char(from, end));
    assert(mended@ =~= without_markers(body));
    mended
}

/// The scores that an answer that `serde_json` read, or did not read,
/// comes to.
pub open spec fn attempt(read: Option<Seq<Seq<MemberModel>>>, sent: Seq<NameModel>) -> Option<
    Seq<ScoreModel>,
> {
    match read {
        Some(rows) => reconciled(rows, sent),
        None => None,
    }
}

/// What an answer comes to. It is read as it stands. Where that brings no
/// scores it is repaired once and read again. Where that brings none
/// either, the answer is malformed.
pub open spec fn response_outcome(text: Seq<char>, sent: Seq<NameModel>) -> Result<
    Seq<ScoreModel>,
    ScoringError,
> {
    match attempt(json_rows(text), sent) {
        Some(scores) => Ok(scores),
        None => match attempt(json_rows(repaired(text)), sent) {
            Some(scores) => Ok(scores),
            None => Err(ScoringError::MalformedResponse),
        },
    }
}

/// One reading of an answer.
fn read_scores(text: &str, sent: &Vec<OllamaNameInput>) -> (scores: Option<Vec<ProcessScore>>)
    ensures
        match scores {
            Some(kept) => attempt(json_rows(text@), sent.deep_view()) == Some(kept.deep_view()),
            None => attempt(json_rows(text@), sent.deep_view()) is None,
        },
{
    match read_rows(text) {
        Ok(rows) => reconcile(&rows, sent),
        Err(_) => None,
    }
}

/// The scores to keep from the text that the model wrote in answer to a
/// request about the processes `sent`.
pub fn scores_from_response(response: &str, sent: &Vec<OllamaNameInput>) -> (result: Result<
    Vec<ProcessScore>,
    ScoringError,
>)
    ensures
        match response_outcome(response@, sent.deep_view()) {
            Ok(scores) => result is Ok && result->Ok_0.deep_view() == scores,
            Err(error) => result == Err::<Vec<ProcessScore>, ScoringError>(error),
        },
{
    match read_scores(response, sent) {
        Some(scores) => Ok(scores),
        None => {
            let mended = repair(response);
            match read_scores(mended.as_str(), sent) {
                Some(scores) => Ok(scores),
                None => Err(ScoringError::MalformedResponse),
            }
        },
    }
}

} // verus!
