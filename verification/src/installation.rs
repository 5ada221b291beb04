use crate::orchestrator::{game_finding, game_finding_spec, Finding};
use crate::prober::{
    answers_come_from, find_latest_version, lemma_last_hit_was_a_hit, lemma_result_is_last_hit,
    probed_at, search_result, start_state, ProbeError, ProbeState,
};
use crate::text::{
    append_chars, chars_of, copy_range, integer_text, lowercase_text, matches_at, optional_text,
    render_i64, starts_with, string_of, string_views, trim_chars, trim_spec,
};
use crate::utils::Utils;
use crate::version::{format_spec, GameVersion};
use vstd::prelude::*;
use vstd::string::StringExecFns;

verus! {

/// Where the game's archives are downloaded from.
pub const BASE_URL: &'static str = "https://cdn.vintagestory.at/gamefiles/stable/";

/// Where the mods are listed and downloaded from.
pub const MODS_URL: &'static str = "https://mods.vintagestory.at/";

/// How the name of the file that marks the installed version begins.
pub const MARKER_PREFIX: &'static str = "version-";

/// `s` without every `prefix` that stands at its beginning, one after another.
pub open spec fn without_leading(s: Seq<char>, prefix: Seq<char>) -> Seq<char>
    decreases s.len(),
{
    if prefix.len() > 0 && starts_with(s, prefix) {
        without_leading(s.skip(prefix.len() as int), prefix)
    } else {
        s
    }
}

/// The version text that a file name in the assets directory gives, if the
/// file is the version marker: what follows `version-`.
pub open spec fn marker_version(name: Seq<char>) -> Option<Seq<char>> {
    if starts_with(name, MARKER_PREFIX@) {
        Some(without_leading(name, MARKER_PREFIX@))
    } else {
        None
    }
}

/// The version text of the first marker among the names.
pub open spec fn first_marker(names: Seq<Seq<char>>) -> Option<Seq<char>>
    decreases names.len(),
{
    if names.len() == 0 {
        None
    } else {
        match marker_version(names[0]) {
            Some(v) => Some(v),
            None => first_marker(names.drop_first()),
        }
    }
}

/// The name of the archive of a release.
pub open spec fn archive_name(
    game_type: Seq<char>,
    version: GameVersion,
    compress_type: Seq<char>,
) -> Seq<char> {
    game_type + format_spec(version) + compress_type
}

/// The address of the archive of a release: where it is downloaded from,
/// and where its existence is asked for.
pub open spec fn download_url_spec(
    game_type: Seq<char>,
    version: GameVersion,
    compress_type: Seq<char>,
) -> Seq<char> {
    BASE_URL@ + archive_name(game_type, version, compress_type)
}

/// The address of a mod's listing page.
pub open spec fn mod_page_url_spec(mod_id: Seq<char>) -> Seq<char> {
    MODS_URL@ + mod_id
}

/// The address from which a file of a mod is downloaded.
pub open spec fn mod_download_url_spec(file_id: int, file_name: Seq<char>) -> Seq<char> {
    MODS_URL@ + "download/"@ + integer_text(file_id) + seq!['/'] + file_name
}

/// Whether an answer agrees to deleting what an interrupted run left in the
/// holding directory: trimmed and in lowercase, it is `y`.
pub open spec fn confirms_deletion(answer: Seq<char>) -> bool {
    lowercase_text(trim_spec(answer)) == "y"@
}

/// The version text that a file name gives, if the file is the version marker.
pub fn version_from_marker(name: &str) -> (out: Option<String>)
    ensures
        optional_text(out) == marker_version(name@),
{
    let chars = chars_of(name);
    let prefix = chars_of(MARKER_PREFIX);
    proof {
        reveal_strlit("version-");
    }
    if !matches_at(&chars, &prefix, 0) {
        assert(chars@.take(prefix@.len() as int) =~= chars@.subrange(0, 0 + prefix@.len() as int));
        return None;
    }
    assert(chars@.take(prefix@.len() as int) =~= chars@.subrange(0, 0 + prefix@.len() as int));
    let mut at: usize = 0;
    assert(chars@.skip(0) =~= chars@);
    while matches_at(&chars, &prefix, at)
        invariant
            at <= chars.len(),
            prefix@.len() == 8,
            without_leading(chars@.skip(at as int), prefix@) == without_leading(chars@, prefix@),
        decreases chars.len() - at,
    {
        let ghost rest = chars@.skip(at as int);
        assert(rest.take(prefix@.len() as int) =~= chars@.subrange(
            at as int,
            at + prefix@.len() as int,
        ));
        assert(rest.skip(prefix@.len() as int) =~= chars@.skip(at + prefix@.len()));
        at += prefix.len();
    }
    proof {
        let rest = chars@.skip(at as int);
        if prefix@.len() <= rest.len() {
            assert(rest.take(prefix@.len() as int) =~= chars@.subrange(
                at as int,
                at + prefix@.len() as int,
            ));
        }
    }
    let rest = copy_range(&chars, at, chars.len());
    assert(rest@ =~= chars@.skip(at as int));
    Some(string_of(&rest))
}

impl Utils {
    /// The installed version as the assets directory shows it: the version
    /// text of the first file, in the order given, that is a version marker.
    pub fn get_game_version(asset_names: &Vec<String>) -> (out: Option<String>)
        ensures
            optional_text(out) == first_marker(string_views(asset_names@)),
    {
        let ghost all = string_views(asset_names@);
        let mut i: usize = 0;
        assert(all.skip(0) =~= all);
        while i < asset_names.len()
            invariant
                i <= asset_names.len(),
                all == string_views(asset_names@),
                first_marker(all) == first_marker(all.skip(i as int)),
            decreases asset_names.len() - i,
        {
            assert(all.skip(i as int)[0] == asset_names@[i as int]@);
            assert(all.skip(i as int).drop_first() =~= all.skip(i + 1));
            match version_from_marker(asset_names[i].as_str()) {
                Some(v) => {
                    return Some(v);
                },
                None => {},
            }
            i += 1;
        }
        None
    }

    /// Decides what to do about a holding directory that an interrupted run
    /// left behind, from the operator's answer: `true` to delete it and go
    /// on, `false` to stop without changing anything.
    pub fn check_temp_folder(answer: &str) -> (out: bool)
        ensures
            out == confirms_deletion(answer@),
    {
        let chars = chars_of(answer);
        let trimmed = string_of(&trim_chars(&chars));
        let lowered = trimmed.as_str().to_lowercase();
        let yes = String::from_str("y");
        lowered == yes
    }
}

fn archive_name_chars(game_type: &str, version: &GameVersion, compress_type: &str) -> (out: Vec<
    char,
>)
    ensures
        out@ == archive_name(game_type@, *version, compress_type@),
{
    let mut out = chars_of(game_type);
    let number = chars_of(version.to_string().as_str());
    append_chars(&mut out, &number);
    let tail = chars_of(compress_type);
    append_chars(&mut out, &tail);
    out
}

/// The address of the archive of a release.
pub fn download_url(game_type: &str, version: &GameVersion, compress_type: &str) -> (out: String)
    ensures
        out@ == download_url_spec(game_type@, *version, compress_type@),
{
    let mut url = chars_of(BASE_URL);
    let name = archive_name_chars(game_type, version, compress_type);
    append_chars(&mut url, &name);
    string_of(&url)
}

/// The address of a mod's listing page.
pub fn mod_page_url(mod_id: &str) -> (out: String)
    ensures
        out@ == mod_page_url_spec(mod_id@),
{
    let mut url = String::from_str(MODS_URL);
    url.append(mod_id);
    url
}

/// The address from which a file of a mod is downloaded.
pub fn mod_download_url(file_id: i64, file_name: &str) -> (out: String)
    ensures
        out@ == mod_download_url_spec(file_id as int, file_name@),
{
    let mut url = chars_of(MODS_URL);
    let segment = chars_of("download/");
    append_chars(&mut url, &segment);
    let id = render_i64(file_id);
    append_chars(&mut url, &id);
    url.push('/');
    let name = chars_of(file_name);
    append_chars(&mut url, &name);
    assert(url@ =~= mod_download_url_spec(file_id as int, file_name@));
    string_of(&url)
}

/// What the look for a newer release of the game came to.
#[derive(Debug, PartialEq, Eq)]
pub enum GameResolution {
    /// No release was found at all.
    NotFound,
    /// The installed release is the latest.
    UpToDate,
    /// This release is to be installed, from this address.
    Update { version: GameVersion, url: String },
}

/// A resolution as contracts see it.
pub enum ResolutionView {
    NotFound,
    UpToDate,
    Update { version: GameVersion, url: Seq<char> },
}

impl View for GameResolution {
    type V = ResolutionView;

    open spec fn view(&self) -> ResolutionView {
        match self {
            GameResolution::NotFound => ResolutionView::NotFound,
            GameResolution::UpToDate => ResolutionView::UpToDate,
            GameResolution::Update { version, url } => ResolutionView::Update {
                version: *version,
                url: url@,
            },
        }
    }
}

/// What a search that ended with `latest` means for an installation at
/// `installed`: the latest release is installed from the address of its
/// archive, unless it is the installed one or none was found.
pub open spec fn resolution_for(
    installed: GameVersion,
    latest: GameVersion,
    game_type: Seq<char>,
    compress_type: Seq<char>,
) -> ResolutionView {
    match game_finding_spec(installed, latest) {
        Finding::NotFound => ResolutionView::NotFound,
        Finding::UpToDate => ResolutionView::UpToDate,
        Finding::Update => ResolutionView::Update {
            version: latest,
            url: download_url_spec(game_type, latest, compress_type),
        },
    }
}

/// The finding that a resolution stands for.
pub open spec fn finding_of(resolution: ResolutionView) -> Finding {
    match resolution {
        ResolutionView::NotFound => Finding::NotFound,
        ResolutionView::UpToDate => Finding::UpToDate,
        ResolutionView::Update { .. } => Finding::Update,
    }
}

/// Whether `answer` is one that `url_exists` can give when asked about `address`.
pub open spec fn address_answers<F: Fn(String) -> bool>(
    url_exists: &F,
    address: Seq<char>,
    answer: bool,
) -> bool {
    exists|url: String| url@ == address && #[trigger] call_ensures(*url_exists, (url,), answer)
}

/// Whether each answer of a search is one that `url_exists` can give for the
/// address of the archive of the version asked about at that point.
pub open spec fn answers_come_from_addresses<F: Fn(String) -> bool>(
    url_exists: &F,
    game_type: Seq<char>,
    compress_type: Seq<char>,
    start: ProbeState,
    answers: Seq<bool>,
) -> bool {
    forall|i: int|
        0 <= i < answers.len() ==> match #[trigger] probed_at(start, answers, i) {
            Some(v) => address_answers(
                url_exists,
                download_url_spec(game_type, v, compress_type),
                answers[i],
            ),
            None => false,
        }
}

/// The view of the outcome of a resolution.
pub open spec fn resolution_view(out: Result<GameResolution, ProbeError>) -> Result<
    ResolutionView,
    ProbeError,
> {
    match out {
        Ok(r) => Ok(r@),
        Err(e) => Err(e),
    }
}

/// What a finished search means for the installation.
pub open spec fn resolution_of_search(
    found: Result<GameVersion, ProbeError>,
    installed: GameVersion,
    game_type: Seq<char>,
    compress_type: Seq<char>,
) -> Result<ResolutionView, ProbeError> {
    match found {
        Ok(latest) => Ok(resolution_for(installed, latest, game_type, compress_type)),
        Err(e) => Err(e),
    }
}

impl GameResolution {
    /// The finding that this resolution stands for.
    pub fn finding(&self) -> (out: Finding)
        ensures
            out == finding_of(self@),
    {
        match self {
            GameResolution::NotFound => Finding::NotFound,
            GameResolution::UpToDate => Finding::UpToDate,
            GameResolution::Update { .. } => Finding::Update,
        }
    }
}

/// Looks for the latest release from the installed one on and says what is
/// to be done. Each version of the search is asked about at the address of
/// its own archive, the address it would be downloaded from; `url_exists` gives
/// the answer. The result is what the answers given lead to.
pub fn resolve_game_update<F: Fn(String) -> bool>(
    installed: GameVersion,
    game_type: &str,
    compress_type: &str,
    url_exists: F,
) -> (out: Result<GameResolution, ProbeError>)
    requires
        forall|url: String| call_requires(url_exists, (url,)),
    ensures
        exists|answers: Seq<bool>|
            answers_come_from_addresses(
                &url_exists,
                game_type@,
                compress_type@,
                start_state(installed),
                answers,
            ) && match #[trigger] search_result(start_state(installed), answers) {
                Some(found) => resolution_view(out) == resolution_of_search(
                    found,
                    installed,
                    game_type@,
                    compress_type@,
                ),
                None => false,
            },
{
    let asker = &url_exists;
    let probe = |version: GameVersion| -> (found: bool)
        ensures
            address_answers(
                asker,
                download_url_spec(game_type@, version, compress_type@),
                found,
            ),
        {
            let url = download_url(game_type, &version, compress_type);
            asker(url)
        };
    let found = find_latest_version(installed, probe);
    proof {
        let start = start_state(installed);
        let answers = choose|answers: Seq<bool>|
            answers_come_from(probe, start, answers) && #[trigger] search_result(start, answers)
                == Some(found);
        assert forall|i: int| 0 <= i < answers.len() implies match #[trigger] probed_at(
            start,
            answers,
            i,
        ) {
            Some(v) => address_answers(
                asker,
                download_url_spec(game_type@, v, compress_type@),
                answers[i],
            ),
            None => false,
        } by {
            match probed_at(start, answers, i) {
                Some(v) => {
                    assert(call_ensures(probe, (v,), answers[i]));
                },
                None => {},
            }
        }
        assert(answers_come_from_addresses(asker, game_type@, compress_type@, start, answers));
    }
    match found {
        Ok(latest) => {
            match game_finding(installed, latest) {
                Finding::NotFound => Ok(GameResolution::NotFound),
                Finding::UpToDate => Ok(GameResolution::UpToDate),
                Finding::Update => Ok(
                    GameResolution::Update {
                        version: latest,
                        url: download_url(game_type, &latest, compress_type),
                    },
                ),
            }
        },
        Err(e) => Err(e),
    }
}

/// A release is only ever installed from an address at which it was found:
/// when a search ends with an update, the search asked about that very
/// version and the answer was yes, and the address handed on for the
/// download is the address of that version's archive, the one at which
/// `resolve_game_update` asks.
pub proof fn lemma_update_was_found_at_its_address(
    installed: GameVersion,
    answers: Seq<bool>,
    game_type: Seq<char>,
    compress_type: Seq<char>,
)
    requires
        search_result(start_state(installed), answers) matches Some(Ok(latest))
            && resolution_for(installed, latest, game_type, compress_type) is Update,
    ensures
        ({
            let latest = search_result(start_state(installed), answers)->0->Ok_0;
            let resolution = resolution_for(installed, latest, game_type, compress_type);
            &&& resolution->version == latest
            &&& resolution->url == download_url_spec(game_type, latest, compress_type)
            &&& exists|i: int|
                0 <= i < answers.len() && answers[i] && #[trigger] probed_at(
                    start_state(installed),
                    answers,
                    i,
                ) == Some(latest)
        }),
{
    let start = start_state(installed);
    lemma_result_is_last_hit(start, answers);
    lemma_last_hit_was_a_hit(start, answers);
}

} // verus!
