use crate::text::{
    append_chars, chars_of, decimal_digits, extension_of, extension_spec, last_index_of,
    render_u64, rfind_char, string_of, string_views,
};
use crate::utils::Utils;
use vstd::prelude::*;
use vstd::string::StringExecFns;

verus! {

/// The kind of system that the updater runs on.
#[derive(Clone, Copy, Debug, PartialEq, Eq, Structural)]
pub enum Platform {
    Windows,
    Linux,
    /// Any other system; nothing can be updated there.
    Other,
}

/// Why the updater cannot work as it was set up.
#[derive(Clone, Copy, Debug, PartialEq, Eq, Structural)]
pub enum ConfigError {
    /// The client for Windows comes as an installer only.
    WindowsClientUnsupported,
    /// The system, or the kind of game on this system, is not known.
    UnknownSystemOrGameType,
    /// The system is not known.
    UnknownSystem,
}

/// The beginning of an archive's name for a kind of game on a system.
pub open spec fn game_type_spec(platform: Platform, game_type: Seq<char>) -> Result<
    Seq<char>,
    ConfigError,
> {
    match platform {
        Platform::Windows => if game_type == "client"@ {
            Err(ConfigError::WindowsClientUnsupported)
        } else if game_type == "server"@ {
            Ok("vs_server_win-x64_"@)
        } else {
            Err(ConfigError::UnknownSystemOrGameType)
        },
        Platform::Linux => if game_type == "client"@ {
            Ok("vs_client_linux-x64_"@)
        } else if game_type == "server"@ {
            Ok("vs_server_linux-x64_"@)
        } else {
            Err(ConfigError::UnknownSystemOrGameType)
        },
        Platform::Other => Err(ConfigError::UnknownSystemOrGameType),
    }
}

/// The end of an archive's name on a system.
pub open spec fn compress_type_spec(platform: Platform) -> Result<Seq<char>, ConfigError> {
    match platform {
        Platform::Windows => Ok(".zip"@),
        Platform::Linux => Ok(".tar.gz"@),
        Platform::Other => Err(ConfigError::UnknownSystem),
    }
}

/// The view of a text or an error.
pub open spec fn text_or_error(r: Result<String, ConfigError>) -> Result<Seq<char>, ConfigError> {
    match r {
        Ok(s) => Ok(s@),
        Err(e) => Err(e),
    }
}

/// A program to run, with its arguments.
#[derive(Debug, PartialEq, Eq)]
pub struct CommandLine {
    pub program: String,
    pub args: Vec<String>,
}

/// A command as contracts see it.
pub struct CommandView {
    pub program: Seq<char>,
    pub args: Seq<Seq<char>>,
}

impl View for CommandLine {
    type V = CommandView;

    open spec fn view(&self) -> CommandView {
        CommandView { program: self.program@, args: string_views(self.args@) }
    }
}

/// The view of a command or an error.
pub open spec fn command_or_error(r: Result<CommandLine, ConfigError>) -> Result<
    CommandView,
    ConfigError,
> {
    match r {
        Ok(c) => Ok(c@),
        Err(e) => Err(e),
    }
}

/// The command that asks whether `url` exists, without fetching it.
pub open spec fn exists_command(platform: Platform, url: Seq<char>) -> Result<
    CommandView,
    ConfigError,
> {
    match platform {
        Platform::Linux => Ok(
            CommandView { program: "wget"@, args: seq!["--spider"@, url, "--quiet"@] },
        ),
        Platform::Windows => Ok(
            CommandView {
                program: "powershell"@,
                args: seq![
                    "-Command"@,
                    "Invoke-WebRequest -Uri '"@ + url + "' -Method Head"@,
                ],
            },
        ),
        Platform::Other => Err(ConfigError::UnknownSystem),
    }
}

/// The command that writes what `url` holds to its standard output.
pub open spec fn fetch_command(platform: Platform, url: Seq<char>) -> Result<
    CommandView,
    ConfigError,
> {
    match platform {
        Platform::Linux => Ok(
            CommandView { program: "wget"@, args: seq!["-q"@, "-O"@, "-"@, url] },
        ),
        Platform::Windows => Ok(CommandView { program: "curl"@, args: seq!["-s"@, url] }),
        Platform::Other => Err(ConfigError::UnknownSystem),
    }
}

/// The command that saves what `url` holds in the file `save_path`.
pub open spec fn download_command(
    platform: Platform,
    url: Seq<char>,
    save_path: Seq<char>,
) -> Result<CommandView, ConfigError> {
    match platform {
        Platform::Linux => Ok(CommandView { program: "wget"@, args: seq![url, "-O"@, save_path] }),
        Platform::Windows => Ok(
            CommandView { program: "curl"@, args: seq!["-L"@, url, "-o"@, save_path] },
        ),
        Platform::Other => Err(ConfigError::UnknownSystem),
    }
}

/// The name under which what `url` holds is saved: what follows its last slash.
pub open spec fn url_file_name(url: Seq<char>) -> Seq<char> {
    match last_index_of(url, '/') {
        Some(i) => url.skip(i + 1),
        None => url,
    }
}

/// The folder that the game's archives hold at their top.
pub const ARCHIVE_ROOT: &'static str = "vintagestory";

/// How to unpack an archive: the command to run, and the folder, if any,
/// whose entries are moved up into the target directory afterwards.
#[derive(Debug, PartialEq, Eq)]
pub struct Extraction {
    pub command: CommandLine,
    pub hoist: Option<String>,
}

/// An extraction as contracts see it.
pub struct ExtractionView {
    pub command: CommandView,
    pub hoist: Option<Seq<char>>,
}

impl View for Extraction {
    type V = ExtractionView;

    open spec fn view(&self) -> ExtractionView {
        ExtractionView {
            command: self.command@,
            hoist: match self.hoist {
                Some(s) => Some(s@),
                None => None,
            },
        }
    }
}

/// The view of an extraction or an error.
pub open spec fn extraction_or_error(r: Result<Extraction, ConfigError>) -> Result<
    ExtractionView,
    ConfigError,
> {
    match r {
        Ok(x) => Ok(x@),
        Err(e) => Err(e),
    }
}

/// Unpacking a gzipped tar archive on Linux.
pub open spec fn tar_extraction(archive: Seq<char>, parent: Seq<char>) -> ExtractionView {
    ExtractionView {
        command: CommandView { program: "tar"@, args: seq!["-xzf"@, archive, "-C"@, parent] },
        hoist: Some(ARCHIVE_ROOT@),
    }
}

/// Unpacking a zip archive on Linux.
pub open spec fn unzip_extraction(archive: Seq<char>, parent: Seq<char>) -> ExtractionView {
    ExtractionView {
        command: CommandView { program: "unzip"@, args: seq![archive, "-d"@, parent] },
        hoist: None,
    }
}

/// Unpacking a zip archive on Windows.
pub open spec fn expand_extraction(archive: Seq<char>, parent: Seq<char>) -> ExtractionView {
    ExtractionView {
        command: CommandView {
            program: "powershell"@,
            args: seq![
                "-Command"@,
                "Expand-Archive -Path '"@ + archive + "' -DestinationPath '"@ + parent
                    + "' -Force"@,
            ],
        },
        hoist: Some(ARCHIVE_ROOT@),
    }
}

/// The lowercase of an ASCII capital letter; every other character as it is.
pub open spec fn ascii_lower(c: char) -> char {
    if 'A' <= c <= 'Z' {
        ((c as u8) + 32u8) as char
    } else {
        c
    }
}

/// Whether two texts are equal but for the case of their ASCII letters.
pub open spec fn same_ignoring_ascii_case(a: Seq<char>, b: Seq<char>) -> bool {
    a.len() == b.len() && forall|i: int|
        0 <= i < a.len() ==> ascii_lower(#[trigger] a[i]) == ascii_lower(b[i])
}

/// Whether a file of this name is unpacked as a zip archive on Linux: its
/// extension is `zip` in any letter case.
pub open spec fn has_zip_extension(file_name: Seq<char>) -> bool {
    match extension_spec(file_name) {
        Some(e) => same_ignoring_ascii_case(e, "zip"@),
        None => false,
    }
}

/// How the archive named `file_name`, which lies at the path `archive`, is
/// unpacked into `parent` on a system.
pub open spec fn extraction_spec(
    platform: Platform,
    file_name: Seq<char>,
    archive: Seq<char>,
    parent: Seq<char>,
) -> Result<ExtractionView, ConfigError> {
    match platform {
        Platform::Windows => Ok(expand_extraction(archive, parent)),
        Platform::Linux => if has_zip_extension(file_name) {
            Ok(unzip_extraction(archive, parent))
        } else {
            Ok(tar_extraction(archive, parent))
        },
        Platform::Other => Err(ConfigError::UnknownSystem),
    }
}

/// The line that announces how many seconds are left before the wipe.
pub open spec fn countdown_line(seconds: nat) -> Seq<char> {
    "Continuing in "@ + decimal_digits(seconds) + (if seconds == 1 {
        " second..."@
    } else {
        " seconds..."@
    })
}

fn text(s: &str) -> (out: String)
    ensures
        out@ == s@,
{
    String::from_str(s)
}

fn concat3(a: &str, b: &str, c: &str) -> (out: String)
    ensures
        out@ == a@ + b@ + c@,
{
    let mut out = String::from_str(a);
    out.append(b);
    out.append(c);
    out
}

fn seq_of_vec3(a: String, b: String, c: String) -> (out: Vec<String>)
    ensures
        string_views(out@) == seq![a@, b@, c@],
{
    let mut out: Vec<String> = Vec::new();
    out.push(a);
    out.push(b);
    out.push(c);
    assert(string_views(out@) =~= seq![a@, b@, c@]);
    out
}

fn lower_ascii(c: char) -> (out: char)
    ensures
        out == ascii_lower(c),
{
    if c >= 'A' && c <= 'Z' {
        ((c as u8) + 32u8) as char
    } else {
        c
    }
}

/// Tests whether a file of this name is unpacked as a zip archive on Linux.
pub fn is_zip_name(file_name: &str) -> (out: bool)
    ensures
        out == has_zip_extension(file_name@),
{
    let name = chars_of(file_name);
    match extension_of(&name) {
        Some(e) => {
            proof {
                reveal_strlit("zip");
            }
            if e.len() != 3 {
                return false;
            }
            let out = lower_ascii(e[0]) == 'z' && lower_ascii(e[1]) == 'i' && lower_ascii(e[2])
                == 'p';
            assert(out == same_ignoring_ascii_case(e@, "zip"@)) by {
                if out {
                    assert forall|i: int| 0 <= i < 3 implies ascii_lower(#[trigger] e@[i])
                        == ascii_lower("zip"@[i]) by {}
                } else {
                    if same_ignoring_ascii_case(e@, "zip"@) {
                        assert(ascii_lower(e@[0]) == ascii_lower("zip"@[0]));
                        assert(ascii_lower(e@[1]) == ascii_lower("zip"@[1]));
                        assert(ascii_lower(e@[2]) == ascii_lower("zip"@[2]));
                    }
                }
            }
            out
        },
        None => false,
    }
}

/// The name under which what `url` holds is saved.
pub fn file_name_from_url(url: &str) -> (out: String)
    ensures
        out@ == url_file_name(url@),
{
    let chars = chars_of(url);
    assert(chars@.take(chars@.len() as int) =~= chars@);
    match rfind_char(&chars, chars.len(), '/') {
        Some(i) => {
            let mut tail: Vec<char> = Vec::new();
            let mut k: usize = i + 1;
            while k < chars.len()
                invariant
                    i + 1 <= k <= chars.len(),
                    tail@ == chars@.subrange(i + 1, k as int),
                decreases chars.len() - k,
            {
                tail.push(chars[k]);
                k += 1;
                assert(chars@.subrange(i + 1, k as int) =~= chars@.subrange(i + 1, k - 1).push(
                    chars@[k - 1],
                ));
            }
            assert(tail@ =~= chars@.skip(i + 1));
            string_of(&tail)
        },
        None => string_of(&chars),
    }
}

impl Utils {
    /// The beginning of an archive's name for a kind of game on a system.
    pub fn get_game_type(platform: Platform, game_type: &String) -> (out: Result<
        String,
        ConfigError,
    >)
        ensures
            text_or_error(out) == game_type_spec(platform, game_type@),
    {
        let client = text("client");
        let server = text("server");
        match platform {
            Platform::Windows => {
                if *game_type == client {
                    Err(ConfigError::WindowsClientUnsupported)
                } else if *game_type == server {
                    Ok(text("vs_server_win-x64_"))
                } else {
                    Err(ConfigError::UnknownSystemOrGameType)
                }
            },
            Platform::Linux => {
                if *game_type == client {
                    Ok(text("vs_client_linux-x64_"))
                } else if *game_type == server {
                    Ok(text("vs_server_linux-x64_"))
                } else {
                    Err(ConfigError::UnknownSystemOrGameType)
                }
            },
            Platform::Other => Err(ConfigError::UnknownSystemOrGameType),
        }
    }

    /// The end of an archive's name on a system.
    pub fn get_compress_type(platform: Platform) -> (out: Result<String, ConfigError>)
        ensures
            text_or_error(out) == compress_type_spec(platform),
    {
        match platform {
            Platform::Windows => Ok(text(".zip")),
            Platform::Linux => Ok(text(".tar.gz")),
            Platform::Other => Err(ConfigError::UnknownSystem),
        }
    }

    /// The command that asks whether `url` exists. The url exists if the
    /// command can be run and ends in success.
    pub fn url_exists(platform: Platform, url: &str) -> (out: Result<CommandLine, ConfigError>)
        ensures
            command_or_error(out) == exists_command(platform, url@),
    {
        match platform {
            Platform::Linux => Ok(
                CommandLine {
                    program: text("wget"),
                    args: seq_of_vec3(text("--spider"), text(url), text("--quiet")),
                },
            ),
            Platform::Windows => {
                let mut args: Vec<String> = Vec::new();
                args.push(text("-Command"));
                args.push(concat3("Invoke-WebRequest -Uri '", url, "' -Method Head"));
                assert(string_views(args@) =~= seq![
                    "-Command"@,
                    "Invoke-WebRequest -Uri '"@ + url@ + "' -Method Head"@,
                ]);
                Ok(CommandLine { program: text("powershell"), args })
            },
            Platform::Other => Err(ConfigError::UnknownSystem),
        }
    }

    /// The command that writes what `url` holds to its standard output. The
    /// text is had if the command can be run, ends in success, and wrote UTF-8.
    pub fn url_result(platform: Platform, url: &str) -> (out: Result<CommandLine, ConfigError>)
        ensures
            command_or_error(out) == fetch_command(platform, url@),
    {
        match platform {
            Platform::Linux => {
                let mut args: Vec<String> = Vec::new();
                args.push(text("-q"));
                args.push(text("-O"));
                args.push(text("-"));
                args.push(text(url));
                assert(string_views(args@) =~= seq!["-q"@, "-O"@, "-"@, url@]);
                Ok(CommandLine { program: text("wget"), args })
            },
            Platform::Windows => {
                let mut args: Vec<String> = Vec::new();
                args.push(text("-s"));
                args.push(text(url));
                assert(string_views(args@) =~= seq!["-s"@, url@]);
                Ok(CommandLine { program: text("curl"), args })
            },
            Platform::Other => Err(ConfigError::UnknownSystem),
        }
    }

    /// The command that saves what `url` holds in the file `save_path`.
    pub fn download_file(platform: Platform, url: &str, save_path: &str) -> (out: Result<
        CommandLine,
        ConfigError,
    >)
        ensures
            command_or_error(out) == download_command(platform, url@, save_path@),
    {
        match platform {
            Platform::Linux => Ok(
                CommandLine {
                    program: text("wget"),
                    args: seq_of_vec3(text(url), text("-O"), text(save_path)),
                },
            ),
            Platform::Windows => {
                let mut args: Vec<String> = Vec::new();
                args.push(text("-L"));
                args.push(text(url));
                args.push(text("-o"));
                args.push(text(save_path));
                assert(string_views(args@) =~= seq!["-L"@, url@, "-o"@, save_path@]);
                Ok(CommandLine { program: text("curl"), args })
            },
            Platform::Other => Err(ConfigError::UnknownSystem),
        }
    }

    /// How a gzipped tar archive is unpacked into `parent` on Linux.
    pub fn uncompress_linux(archive: &str, parent: &str) -> (out: Extraction)
        ensures
            out@ == tar_extraction(archive@, parent@),
    {
        let mut args: Vec<String> = Vec::new();
        args.push(text("-xzf"));
        args.push(text(archive));
        args.push(text("-C"));
        args.push(text(parent));
        assert(string_views(args@) =~= seq!["-xzf"@, archive@, "-C"@, parent@]);
        Extraction {
            command: CommandLine { program: text("tar"), args },
            hoist: Some(text(ARCHIVE_ROOT)),
        }
    }

    /// How a zip archive is unpacked into `parent` on Linux.
    pub fn uncompress_linux_zip(archive: &str, parent: &str) -> (out: Extraction)
        ensures
            out@ == unzip_extraction(archive@, parent@),
    {
        Extraction {
            command: CommandLine {
                program: text("unzip"),
                args: seq_of_vec3(text(archive), text("-d"), text(parent)),
            },
            hoist: None,
        }
    }

    /// How a zip archive is unpacked into `parent` on Windows.
    pub fn uncompress_windows(archive: &str, parent: &str) -> (out: Extraction)
        ensures
            out@ == expand_extraction(archive@, parent@),
    {
        let mut script = String::from_str("Expand-Archive -Path '");
        script.append(archive);
        script.append("' -DestinationPath '");
        script.append(parent);
        script.append("' -Force");
        let mut args: Vec<String> = Vec::new();
        args.push(text("-Command"));
        args.push(script);
        assert(string_views(args@) =~= seq![
            "-Command"@,
            "Expand-Archive -Path '"@ + archive@ + "' -DestinationPath '"@ + parent@
                + "' -Force"@,
        ]);
        Extraction {
            command: CommandLine { program: text("powershell"), args },
            hoist: Some(text(ARCHIVE_ROOT)),
        }
    }

    /// How the archive named `file_name`, which lies at the path `archive`,
    /// is unpacked into `parent` on a system.
    pub fn uncompress(platform: Platform, file_name: &str, archive: &str, parent: &str) -> (out:
        Result<Extraction, ConfigError>)
        ensures
            extraction_or_error(out) == extraction_spec(platform, file_name@, archive@, parent@),
    {
        match platform {
            Platform::Windows => Ok(Utils::uncompress_windows(archive, parent)),
            Platform::Linux => {
                if is_zip_name(file_name) {
                    Ok(Utils::uncompress_linux_zip(archive, parent))
                } else {
                    Ok(Utils::uncompress_linux(archive, parent))
                }
            },
            Platform::Other => Err(ConfigError::UnknownSystem),
        }
    }

    /// The lines to show, one a second, before the wipe begins: from
    /// `seconds` down to one.
    pub fn countdown(seconds: u64) -> (out: Vec<String>)
        requires
            seconds <= usize::MAX,
        ensures
            out@.len() == seconds,
            forall|k: int|
                0 <= k < seconds ==> (#[trigger] out@[k])@ == countdown_line((seconds - k) as nat),
    {
        let mut out: Vec<String> = Vec::new();
        let mut left: u64 = seconds;
        while left > 0
            invariant
                left <= seconds <= usize::MAX,
                out@.len() == seconds - left,
                forall|k: int|
                    0 <= k < seconds - left ==> (#[trigger] out@[k])@ == countdown_line(
                        (seconds - k) as nat,
                    ),
            decreases left,
        {
            let mut line = chars_of("Continuing in ");
            let digits = render_u64(left);
            append_chars(&mut line, &digits);
            let tail = if left == 1 {
                chars_of(" second...")
            } else {
                chars_of(" seconds...")
            };
            append_chars(&mut line, &tail);
            assert(line@ =~= countdown_line(left as nat));
            out.push(string_of(&line));
            left -= 1;
        }
        out
    }
}

} // verus!
