use crate::text::{
    chars_of, chars_views, contains_run, has_run, i64_text_value, optional_slice, parse_i64,
    split_chars, split_on, string_of, string_views,
};
use crate::utils::Utils;
use vstd::prelude::*;

verus! {

/// The pattern that a download link has in a mod's listing page: an `href`
/// attribute whose value begins with `/download/`. Its first group is the value.
pub const LINK_PATTERN: &'static str = "href=\"(/download/[^\"]*)\"";

/// Group one of each successive non-overlapping match of the regular
/// expression `pattern` in `haystack`, in the order of the matches, with
/// `None` for a match in which the group took no part; `None` as a whole when
/// the pattern is refused.
pub uninterp spec fn regex_first_groups(pattern: Seq<char>, haystack: Seq<char>) -> Option<
    Seq<Option<Seq<char>>>,
>;

/// The views of a list of optional strings.
pub open spec fn group_views(groups: Seq<Option<String>>) -> Seq<Option<Seq<char>>> {
    Seq::new(
        groups.len(),
        |i: int|
            match groups[i] {
                Some(s) => Some(s@),
                None => None,
            },
    )
}

/// The view of what a pattern search returns.
pub open spec fn search_view(found: Option<Vec<Option<String>>>) -> Option<
    Seq<Option<Seq<char>>>,
> {
    match found {
        Some(groups) => Some(group_views(groups@)),
        None => None,
    }
}

/// Compiles `pattern` with `regex::Regex::new` and walks `haystack` with
/// `Regex::captures_iter`, taking group one of each match by `Captures::get`
/// and `Match::as_str`. The contract only gives the outcome its name: it is
/// a function of the two texts.
#[verifier::external_body]
fn first_groups(pattern: &str, haystack: &str) -> (out: Option<Vec<Option<String>>>)
    ensures
        search_view(out) == regex_first_groups(pattern@, haystack@),
{
    match regex::Regex::new(pattern) {
        Ok(re) => Some(
            re.captures_iter(haystack).map(|found| found.get(1).map(|m| m.as_str().to_string()))
                .collect(),
        ),
        Err(_) => None,
    }
}

/// The groups that took part in their match, in order.
pub open spec fn present_groups(groups: Seq<Option<Seq<char>>>) -> Seq<Seq<char>>
    decreases groups.len(),
{
    if groups.len() == 0 {
        Seq::<Seq<char>>::empty()
    } else {
        match groups.last() {
            Some(g) => present_groups(groups.drop_last()).push(g),
            None => present_groups(groups.drop_last()),
        }
    }
}

/// The download links that a pattern search stands for: the groups that took
/// part, or nothing to go by when the pattern was refused.
pub open spec fn links_of_search(found: Option<Seq<Option<Seq<char>>>>) -> Option<
    Seq<Seq<char>>,
> {
    match found {
        Some(groups) => Some(present_groups(groups)),
        None => None,
    }
}

/// The view of an optional list of strings.
pub open spec fn optional_views(links: Option<Vec<String>>) -> Option<Seq<Seq<char>>> {
    match links {
        Some(v) => Some(string_views(v@)),
        None => None,
    }
}

/// Keeps the groups that took part in their match.
pub fn links_from_groups(groups: Vec<Option<String>>) -> (out: Vec<String>)
    ensures
        string_views(out@) == present_groups(group_views(groups@)),
{
    let ghost all = group_views(groups@);
    let mut out: Vec<String> = Vec::new();
    let mut i: usize = 0;
    while i < groups.len()
        invariant
            i <= groups.len(),
            all == group_views(groups@),
            string_views(out@) == present_groups(all.take(i as int)),
        decreases groups.len() - i,
    {
        let ghost before = string_views(out@);
        assert(all.take(i + 1).drop_last() =~= all.take(i as int));
        assert(all.take(i + 1).last() == all[i as int]);
        match &groups[i] {
            Some(s) => {
                out.push(s.clone());
                assert(string_views(out@) =~= before.push(s@));
            },
            None => {},
        }
        i += 1;
    }
    assert(all.take(groups@.len() as int) =~= all);
    out
}

/// Group one of every match of `pattern` in `text` in which the group took
/// part, in the order of the matches; `None` if the pattern is refused.
pub fn links_matching(pattern: &str, text: &str) -> (out: Option<Vec<String>>)
    ensures
        optional_views(out) == links_of_search(regex_first_groups(pattern@, text@)),
{
    match first_groups(pattern, text) {
        Some(groups) => Some(links_from_groups(groups)),
        None => None,
    }
}

impl Utils {
    /// The download links in a listing page, in the order in which they
    /// stand there; `None` if the link pattern is refused.
    pub fn extract_download_links(html: &str) -> (out: Option<Vec<String>>)
        ensures
            optional_views(out) == links_of_search(regex_first_groups(LINK_PATTERN@, html@)),
    {
        links_matching(LINK_PATTERN, html)
    }
}

/// The id and the file name that a download link carries: the third and the
/// fourth of the pieces between its slashes, if it has at least four.
pub open spec fn link_parts(link: Seq<char>) -> Option<(Seq<char>, Seq<char>)> {
    let parts = split_on(link, '/');
    if parts.len() >= 4 {
        Some((parts[2], parts[3]))
    } else {
        None
    }
}

/// The view of an optional pair of strings.
pub open spec fn pair_view(pair: Option<(String, String)>) -> Option<(Seq<char>, Seq<char>)> {
    match pair {
        Some((a, b)) => Some((a@, b@)),
        None => None,
    }
}

impl Utils {
    /// Takes a link of the form `/download/<id>/<file name>` apart.
    pub fn extract_id_and_filename(link: &str) -> (out: Option<(String, String)>)
        ensures
            pair_view(out) == link_parts(link@),
    {
        let chars = chars_of(link);
        let parts = split_chars(&chars, '/');
        if parts.len() >= 4 {
            assert(chars_views(parts@)[2] == parts[2]@);
            assert(chars_views(parts@)[3] == parts[3]@);
            let id: String = string_of(&parts[2]);
            let filename: String = string_of(&parts[3]);
            Some((id, filename))
        } else {
            None
        }
    }
}

/// A file offered for download on a mod's listing page.
#[derive(Clone, Debug, PartialEq, Eq)]
pub struct ModRelease {
    pub file_id: i64,
    pub file_name: String,
}

/// A release as contracts see it.
pub struct ReleaseView {
    pub file_id: int,
    pub file_name: Seq<char>,
}

impl View for ModRelease {
    type V = ReleaseView;

    open spec fn view(&self) -> ReleaseView {
        ReleaseView { file_id: self.file_id as int, file_name: self.file_name@ }
    }
}

/// Why a link gives no candidate.
#[derive(Clone, Copy, Debug, PartialEq, Eq, Structural)]
pub enum LinkProblem {
    /// The link has fewer than four pieces between its slashes.
    BadShape,
    /// The file is a pre-release and those were excluded.
    PreRelease,
    /// The id is no integer.
    BadId,
}

/// Whether a file name marks a pre-release: it holds `-pre` or `-rc`.
pub open spec fn is_pre_release_name(name: Seq<char>) -> bool {
    contains_run(name, "-pre"@) || contains_run(name, "-rc"@)
}

/// What a link gives: a candidate release, or the first reason why not. The
/// shape is looked at first, then the pre-release filter, then the id.
pub open spec fn link_verdict(link: Seq<char>, exclude_pre: bool) -> Result<
    ReleaseView,
    LinkProblem,
> {
    match link_parts(link) {
        None => Err(LinkProblem::BadShape),
        Some((id, name)) => if exclude_pre && is_pre_release_name(name) {
            Err(LinkProblem::PreRelease)
        } else {
            match i64_text_value(id) {
                Some(n) => Ok(ReleaseView { file_id: n as int, file_name: name }),
                None => Err(LinkProblem::BadId),
            }
        },
    }
}

/// The view of a verdict.
pub open spec fn verdict_view(v: Result<ModRelease, LinkProblem>) -> Result<
    ReleaseView,
    LinkProblem,
> {
    match v {
        Ok(r) => Ok(r@),
        Err(e) => Err(e),
    }
}

/// Tests whether a file name marks a pre-release.
pub fn is_pre_release(file_name: &str) -> (out: bool)
    ensures
        out == is_pre_release_name(file_name@),
{
    let name = chars_of(file_name);
    let pre = chars_of("-pre");
    let rc = chars_of("-rc");
    has_run(&name, &pre) || has_run(&name, &rc)
}

/// Judges one download link.
pub fn classify_link(link: &str, exclude_pre: bool) -> (out: Result<ModRelease, LinkProblem>)
    ensures
        verdict_view(out) == link_verdict(link@, exclude_pre),
{
    match Utils::extract_id_and_filename(link) {
        None => Err(LinkProblem::BadShape),
        Some((id, file_name)) => {
            if exclude_pre && is_pre_release(file_name.as_str()) {
                Err(LinkProblem::PreRelease)
            } else {
                let digits = chars_of(id.as_str());
                match parse_i64(&digits) {
                    Some(file_id) => Ok(ModRelease { file_id, file_name }),
                    None => Err(LinkProblem::BadId),
                }
            }
        },
    }
}

/// The views of a list of verdicts.
pub open spec fn verdict_views(v: Seq<Result<ModRelease, LinkProblem>>) -> Seq<
    Result<ReleaseView, LinkProblem>,
> {
    Seq::new(v.len(), |i: int| verdict_view(v[i]))
}

/// Judges every link, in order, so that each link that gives no candidate
/// can be reported with its reason.
pub fn judge_links(links: &Vec<String>, exclude_pre: bool) -> (out: Vec<
    Result<ModRelease, LinkProblem>,
>)
    ensures
        verdict_views(out@) == Seq::new(
            links@.len(),
            |i: int| link_verdict(links@[i]@, exclude_pre),
        ),
{
    let mut out: Vec<Result<ModRelease, LinkProblem>> = Vec::new();
    let mut i: usize = 0;
    while i < links.len()
        invariant
            i <= links.len(),
            verdict_views(out@) == Seq::new(
                i as nat,
                |k: int| link_verdict(links@[k]@, exclude_pre),
            ),
        decreases links.len() - i,
    {
        let ghost before = verdict_views(out@);
        let verdict = classify_link(links[i].as_str(), exclude_pre);
        out.push(verdict);
        assert(verdict_views(out@) =~= before.push(link_verdict(links@[i as int]@, exclude_pre)));
        i += 1;
        assert(verdict_views(out@) =~= Seq::new(
            i as nat,
            |k: int| link_verdict(links@[k]@, exclude_pre),
        ));
    }
    out
}

/// The views of a list of releases.
pub open spec fn release_views(v: Seq<ModRelease>) -> Seq<ReleaseView> {
    Seq::new(v.len(), |i: int| v[i]@)
}

/// The candidates among the links, in the order of the links.
pub open spec fn candidates_of(links: Seq<Seq<char>>, exclude_pre: bool) -> Seq<ReleaseView>
    decreases links.len(),
{
    if links.len() == 0 {
        Seq::<ReleaseView>::empty()
    } else {
        match link_verdict(links.last(), exclude_pre) {
            Ok(r) => candidates_of(links.drop_last(), exclude_pre).push(r),
            Err(_) => candidates_of(links.drop_last(), exclude_pre),
        }
    }
}

/// Judges every link and keeps the candidates.
pub fn collect_candidates(links: &Vec<String>, exclude_pre: bool) -> (out: Vec<ModRelease>)
    ensures
        release_views(out@) == candidates_of(string_views(links@), exclude_pre),
{
    let ghost all = string_views(links@);
    let mut out: Vec<ModRelease> = Vec::new();
    let mut i: usize = 0;
    while i < links.len()
        invariant
            i <= links.len(),
            all == string_views(links@),
            release_views(out@) == candidates_of(all.take(i as int), exclude_pre),
        decreases links.len() - i,
    {
        let ghost before = release_views(out@);
        assert(all.take(i + 1).drop_last() =~= all.take(i as int));
        assert(all.take(i + 1).last() == links[i as int]@);
        match classify_link(links[i].as_str(), exclude_pre) {
            Ok(release) => {
                out.push(release);
                assert(release_views(out@) =~= before.push(release@));
            },
            Err(_) => {},
        }
        i += 1;
    }
    assert(all.take(links@.len() as int) =~= all);
    out
}

/// The newest of the candidates: the one with the greatest id, and of
/// several with that id the one that comes last.
pub open spec fn newest_of(candidates: Seq<ReleaseView>) -> Option<ReleaseView>
    decreases candidates.len(),
{
    if candidates.len() == 0 {
        None
    } else {
        match newest_of(candidates.drop_last()) {
            Some(best) => if best.file_id > candidates.last().file_id {
                Some(best)
            } else {
                Some(candidates.last())
            },
            None => Some(candidates.last()),
        }
    }
}

/// The place of the newest candidate, if there is any candidate.
pub open spec fn newest_index(candidates: Seq<ReleaseView>) -> Option<int>
    decreases candidates.len(),
{
    if candidates.len() == 0 {
        None
    } else {
        match newest_index(candidates.drop_last()) {
            Some(k) => if candidates[k].file_id > candidates.last().file_id {
                Some(k)
            } else {
                Some(candidates.len() - 1)
            },
            None => Some(candidates.len() - 1),
        }
    }
}

/// The newest candidate is one of the candidates, none has a greater id, and
/// every candidate after it has a smaller one. Without candidates there is none.
pub proof fn lemma_newest_is_last_greatest(candidates: Seq<ReleaseView>)
    ensures
        candidates.len() == 0 <==> newest_of(candidates) is None,
        newest_index(candidates) is None <==> newest_of(candidates) is None,
        newest_index(candidates) matches Some(k) ==> {
            &&& 0 <= k < candidates.len()
            &&& newest_of(candidates) == Some(candidates[k])
            &&& forall|j: int| 0 <= j < candidates.len() ==> (#[trigger] candidates[j]).file_id
                <= candidates[k].file_id
            &&& forall|j: int| k < j < candidates.len() ==> (#[trigger] candidates[j]).file_id
                < candidates[k].file_id
        },
    decreases candidates.len(),
{
    if candidates.len() > 0 {
        let rest = candidates.drop_last();
        lemma_newest_is_last_greatest(rest);
        match newest_index(rest) {
            Some(k) => {
                assert(rest[k] == candidates[k]);
                assert forall|j: int| 0 <= j < candidates.len() implies (
                #[trigger] candidates[j]).file_id <= candidates[newest_index(
                    candidates,
                )->0].file_id by {
                    if j < rest.len() {
                        assert(rest[j] == candidates[j]);
                    }
                }
                assert forall|j: int| newest_index(candidates)->0 < j < candidates.len() implies (
                #[trigger] candidates[j]).file_id < candidates[newest_index(
                    candidates,
                )->0].file_id by {
                    if j < rest.len() {
                        assert(rest[j] == candidates[j]);
                    }
                }
            },
            None => {},
        }
    }
}

/// The view of an optional release.
pub open spec fn optional_release_view(r: Option<ModRelease>) -> Option<ReleaseView> {
    match r {
        Some(r) => Some(r@),
        None => None,
    }
}

/// Picks the newest of the candidates.
pub fn select_newest(candidates: &Vec<ModRelease>) -> (out: Option<ModRelease>)
    ensures
        optional_release_view(out) == newest_of(release_views(candidates@)),
{
    if candidates.len() == 0 {
        return None;
    }
    let ghost all = release_views(candidates@);
    let mut best: usize = 0;
    let mut i: usize = 1;
    assert(all.take(1).drop_last() =~= Seq::<ReleaseView>::empty());
    assert(newest_of(all.take(1).drop_last()) is None);
    while i < candidates.len()
        invariant
            1 <= i <= candidates.len(),
            best < i,
            all == release_views(candidates@),
            newest_of(all.take(i as int)) == Some(all[best as int]),
        decreases candidates.len() - i,
    {
        assert(all.take(i + 1).drop_last() =~= all.take(i as int));
        assert(all.take(i + 1).last() == all[i as int]);
        if !(candidates[best].file_id > candidates[i].file_id) {
            best = i;
        }
        i += 1;
    }
    assert(all.take(candidates@.len() as int) =~= all);
    let chosen = &candidates[best];
    Some(ModRelease { file_id: chosen.file_id, file_name: chosen.file_name.clone() })
}

/// What is to be done about a mod.
#[derive(Debug, PartialEq, Eq)]
pub enum ModDecision {
    /// The installed file is as new as the newest on offer.
    UpToDate,
    /// This release is to be installed.
    Update(ModRelease),
}

/// Why no decision about a mod could be made.
#[derive(Clone, Copy, Debug, PartialEq, Eq, Structural)]
pub enum ModError {
    /// No link on the page gave a candidate with an integer id.
    NoCandidateFound,
    /// The link pattern was refused, so the page could not be searched.
    PatternRejected,
}

/// A decision as contracts see it.
pub enum DecisionView {
    UpToDate,
    Update(ReleaseView),
}

impl View for ModDecision {
    type V = DecisionView;

    open spec fn view(&self) -> DecisionView {
        match self {
            ModDecision::UpToDate => DecisionView::UpToDate,
            ModDecision::Update(r) => DecisionView::Update(r@),
        }
    }
}

/// The view of the outcome of a resolution.
pub open spec fn outcome_view(out: Result<ModDecision, ModError>) -> Result<
    DecisionView,
    ModError,
> {
    match out {
        Ok(d) => Ok(d@),
        Err(e) => Err(e),
    }
}

/// The decision for a mod whose recorded file id is `installed` when the
/// newest candidate is `newest`: without a candidate there is nothing to go
/// by; a recorded id that is an integer no smaller than the candidate's means
/// that the mod is current; in every other case the candidate is installed.
pub open spec fn decision_for(installed: Seq<char>, newest: Option<ReleaseView>) -> Result<
    DecisionView,
    ModError,
> {
    match newest {
        None => Err(ModError::NoCandidateFound),
        Some(r) => match i64_text_value(installed) {
            Some(have) => if have >= r.file_id {
                Ok(DecisionView::UpToDate)
            } else {
                Ok(DecisionView::Update(r))
            },
            None => Ok(DecisionView::Update(r)),
        },
    }
}

/// Decides whether the newest candidate is to be installed.
pub fn decide_update(installed_file_id: &str, newest: Option<ModRelease>) -> (out: Result<
    ModDecision,
    ModError,
>)
    ensures
        outcome_view(out) == decision_for(installed_file_id@, optional_release_view(newest)),
{
    match newest {
        None => Err(ModError::NoCandidateFound),
        Some(release) => {
            let digits = chars_of(installed_file_id);
            match parse_i64(&digits) {
                Some(have) => {
                    if have >= release.file_id {
                        Ok(ModDecision::UpToDate)
                    } else {
                        Ok(ModDecision::Update(release))
                    }
                },
                None => Ok(ModDecision::Update(release)),
            }
        },
    }
}

/// The decision for a mod whose record may lack a file id, as a record of
/// one line does: an absent id counts as older than every release, so the
/// newest candidate is installed whenever there is one; an id that is there
/// decides as in `decision_for`.
pub open spec fn decision_for_record(
    installed: Option<Seq<char>>,
    newest: Option<ReleaseView>,
) -> Result<DecisionView, ModError> {
    match installed {
        Some(id) => decision_for(id, newest),
        None => match newest {
            Some(r) => Ok(DecisionView::Update(r)),
            None => Err(ModError::NoCandidateFound),
        },
    }
}

/// Decides whether the newest candidate is to be installed over what a
/// mod's record says. A record without a file id never counts as current.
pub fn decide_for_record(installed_file_id: Option<&str>, newest: Option<ModRelease>) -> (out:
    Result<ModDecision, ModError>)
    ensures
        outcome_view(out) == decision_for_record(
            optional_slice(installed_file_id),
            optional_release_view(newest),
        ),
        installed_file_id is None ==> outcome_view(out) == match newest {
            Some(r) => Ok::<DecisionView, ModError>(DecisionView::Update(r@)),
            None => Err::<DecisionView, ModError>(ModError::NoCandidateFound),
        },
{
    match installed_file_id {
        Some(id) => decide_update(id, newest),
        None => match newest {
            Some(release) => Ok(ModDecision::Update(release)),
            None => Err(ModError::NoCandidateFound),
        },
    }
}

/// The decision that a list of download links leads to.
pub open spec fn resolution_of_links(
    links: Seq<Seq<char>>,
    installed: Option<Seq<char>>,
    exclude_pre: bool,
) -> Result<DecisionView, ModError> {
    decision_for_record(installed, newest_of(candidates_of(links, exclude_pre)))
}

/// The decision that the outcome of a pattern search leads to.
pub open spec fn resolution_of_search(
    found: Option<Seq<Option<Seq<char>>>>,
    installed: Option<Seq<char>>,
    exclude_pre: bool,
) -> Result<DecisionView, ModError> {
    match links_of_search(found) {
        Some(links) => resolution_of_links(links, installed, exclude_pre),
        None => Err(ModError::PatternRejected),
    }
}

/// Decides about a mod from the download links of its listing page and the
/// file id on its record, if the record has one.
pub fn resolve_from_links(
    links: &Vec<String>,
    installed_file_id: Option<&str>,
    exclude_pre: bool,
) -> (out: Result<ModDecision, ModError>)
    ensures
        outcome_view(out) == resolution_of_links(
            string_views(links@),
            optional_slice(installed_file_id),
            exclude_pre,
        ),
{
    let candidates = collect_candidates(links, exclude_pre);
    decide_for_record(installed_file_id, select_newest(&candidates))
}

/// Decides about a mod from the text of its listing page and the file id on
/// its record, if the record has one.
pub fn resolve_mod_update(html: &str, installed_file_id: Option<&str>, exclude_pre: bool) -> (out:
    Result<ModDecision, ModError>)
    ensures
        outcome_view(out) == resolution_of_search(
            regex_first_groups(LINK_PATTERN@, html@),
            optional_slice(installed_file_id),
            exclude_pre,
        ),
{
    match Utils::extract_download_links(html) {
        Some(links) => resolve_from_links(&links, installed_file_id, exclude_pre),
        None => Err(ModError::PatternRejected),
    }
}

/// A record without a file id leads to an update whenever the links give a
/// candidate at all, and the release installed is the newest candidate.
pub proof fn lemma_absent_id_means_update(links: Seq<Seq<char>>, exclude_pre: bool)
    ensures
        resolution_of_links(links, None, exclude_pre) == match newest_of(
            candidates_of(links, exclude_pre),
        ) {
            Some(r) => Ok::<DecisionView, ModError>(DecisionView::Update(r)),
            None => Err::<DecisionView, ModError>(ModError::NoCandidateFound),
        },
{
}

} // verus!
