//! Starting the application with the operating system.

use crate::error::{AppError, ErrorView};
use crate::location::Platform;
use crate::text::{
    find, has_prefix, has_text, lemma_strip_both, lemma_strip_nothing, occurs_at, opt_view,
    skip_chars, starts_with, strip_back, strip_both, strip_front, strips, take_chars, trim, trim_of,
    trimmed, Strip,
};
use vstd::prelude::*;

verus! {

pub const APP_NAME: &'static str = "CC Switch";

/// The registry key with the commands that Windows runs at logon.
pub const RUN_KEY: &'static str = "SOFTWARE\\Microsoft\\Windows\\CurrentVersion\\Run";

/// The registry key in which Windows keeps what the user approved of them.
pub const APPROVED_KEY: &'static str =
    "SOFTWARE\\Microsoft\\Windows\\CurrentVersion\\Explorer\\StartupApproved\\Run";

/// The prefix of an extended-length Windows path.
pub const EXTENDED_PREFIX: &'static str = "\\\\?\\";

/// What stands between a bundle's path and the executable in it.
pub const BUNDLE_MARK: &'static str = ".app/Contents/MacOS/";

/// What makes the application start at logon.
#[derive(Debug)]
pub enum LaunchEntry {
    /// Values in the Windows registry.
    Registry { name: String, command: String, approved: Vec<u8> },
    /// A login item for the given path.
    LoginItem { name: String, path: String },
}

/// The mathematical content of a `LaunchEntry`.
pub enum EntryView {
    Registry { name: Seq<char>, command: Seq<char>, approved: Seq<u8> },
    LoginItem { name: Seq<char>, path: Seq<char> },
}

impl View for LaunchEntry {
    type V = EntryView;

    open spec fn view(&self) -> EntryView {
        match *self {
            LaunchEntry::Registry { name, command, approved } => EntryView::Registry {
                name: name@,
                command: command@,
                approved: approved@,
            },
            LaunchEntry::LoginItem { name, path } => EntryView::LoginItem {
                name: name@,
                path: path@,
            },
        }
    }
}

/// What is to be taken away so that the application no longer starts at
/// logon.
#[derive(Debug)]
pub enum LaunchRemoval {
    /// The values with this name in the Windows registry.
    Registry { name: String },
    /// The login item for the given path.
    LoginItem { name: String, path: String },
}

/// What became of deleting the value under the run key.
#[derive(Debug)]
pub enum DeleteOutcome {
    /// The key could not be opened.
    NoKey,
    Deleted,
    NotFound,
    Failed(String),
}

/// What the operating system says about the entry.
#[derive(Debug)]
pub enum LaunchStatus {
    /// The values in the Windows registry.
    Registry { run: Option<String>, approved: Option<Vec<u8>> },
    /// The answer about the login item.
    LoginItem(Result<bool, String>),
}

/// A step that can fail.
#[derive(Debug, Clone, Copy, PartialEq, Eq, Structural)]
pub enum LaunchStep {
    FindExecutable,
    WriteRunValue,
    DeleteRunValue,
    BuildLoginItem,
    EnableLoginItem,
    DisableLoginItem,
    CheckLoginItem,
}

/// How the message about a failed step begins.
pub open spec fn failure_heading(step: LaunchStep) -> Seq<char> {
    match step {
        LaunchStep::FindExecutable => "无法获取应用路径: "@,
        LaunchStep::WriteRunValue => "写入开机自启注册表失败: "@,
        LaunchStep::DeleteRunValue => "删除开机自启注册表失败: "@,
        LaunchStep::BuildLoginItem => "创建 AutoLaunch 失败: "@,
        LaunchStep::EnableLoginItem => "启用开机自启失败: "@,
        LaunchStep::DisableLoginItem => "禁用开机自启失败: "@,
        LaunchStep::CheckLoginItem => "检查开机自启状态失败: "@,
    }
}

/// The error for a failed step: what was tried, then the cause.
pub fn launch_failure(step: LaunchStep, cause: &str) -> (r: AppError)
    ensures
        r@ == ErrorView::Message(failure_heading(step) + cause@),
{
    let heading: &str = match step {
        LaunchStep::FindExecutable => "无法获取应用路径: ",
        LaunchStep::WriteRunValue => "写入开机自启注册表失败: ",
        LaunchStep::DeleteRunValue => "删除开机自启注册表失败: ",
        LaunchStep::BuildLoginItem => "创建 AutoLaunch 失败: ",
        LaunchStep::EnableLoginItem => "启用开机自启失败: ",
        LaunchStep::DisableLoginItem => "禁用开机自启失败: ",
        LaunchStep::CheckLoginItem => "检查开机自启状态失败: ",
    };
    AppError::caused(heading, cause)
}

/// A Windows path without the prefix of an extended-length path.
pub open spec fn bare_path(path: Seq<char>) -> Seq<char> {
    if has_prefix(path, EXTENDED_PREFIX@) {
        path.skip(EXTENDED_PREFIX@.len() as int)
    } else {
        path
    }
}

/// The command that runs a Windows executable: its bare path in quotes.
pub open spec fn run_command(path: Seq<char>) -> Seq<char> {
    seq!['"'] + strip_both(bare_path(path), Strip::Only('"')) + seq!['"']
}

/// The bytes by which Windows marks an entry as approved.
pub open spec fn approved_bytes() -> Seq<u8> {
    seq![2u8, 0, 0, 0, 0, 0, 0, 0, 0, 0, 0, 0]
}

/// The first four bytes as a number, least significant first.
pub open spec fn le32(bytes: Seq<u8>) -> nat {
    (bytes[0] + bytes[1] * 0x100 + bytes[2] * 0x1_0000 + bytes[3] * 0x100_0000) as nat
}

/// Whether the bytes say that the user switched the entry off.
pub open spec fn switched_off(approved: Option<Seq<u8>>) -> bool {
    match approved {
        Some(bytes) => bytes.len() >= 4 && (le32(bytes) == 6 || le32(bytes) == 7),
        None => false,
    }
}

/// Whether the registry makes the application start at logon: there is a
/// command, and the user did not switch it off.
pub open spec fn registry_enabled(run: Option<Seq<char>>, approved: Option<Seq<u8>>) -> bool {
    &&& run matches Some(command)
    &&& trimmed(command).len() > 0
    &&& !switched_off(approved)
}

/// The bundle that an executable on macOS belongs to.
pub open spec fn is_bundle_of(bundle: Seq<char>, path: Seq<char>) -> bool {
    exists|i: int|
        #![trigger occurs_at(path, BUNDLE_MARK@, i)]
        occurs_at(path, BUNDLE_MARK@, i) && bundle == path.take(i + 4) && forall|j: int|
            0 <= j < i ==> !occurs_at(path, BUNDLE_MARK@, j)
}

/// The view of optional bytes.
pub open spec fn bytes_view(bytes: Option<Vec<u8>>) -> Option<Seq<u8>> {
    match bytes {
        Some(bytes) => Some(bytes@),
        None => None,
    }
}

/// The command that runs a Windows executable, quoted so that a path with
/// spaces is taken as a whole.
pub fn windows_run_command(exe_path: &str) -> (r: String)
    ensures
        r@ == run_command(exe_path@),
{
    let bare: String = if starts_with(exe_path, EXTENDED_PREFIX) {
        proof {
            reveal_strlit("\\\\?\\");
        }
        skip_chars(exe_path, 4)
    } else {
        exe_path.to_string()
    };
    let inner: String = trim_of(bare.as_str(), &Strip::Only('"'));
    let mut out: String = String::new();
    out.push('"');
    out.append(inner.as_str());
    out.push('"');
    assert(out@ =~= run_command(exe_path@));
    out
}

/// The bundle that an executable on macOS belongs to.
pub fn get_macos_app_bundle_path(exe_path: &str) -> (r: Option<String>)
    ensures
        match r {
            Some(bundle) => is_bundle_of(bundle@, exe_path@),
            None => !has_text(exe_path@, BUNDLE_MARK@),
        },
{
    match find(exe_path, BUNDLE_MARK) {
        Some(i) => {
            proof {
                reveal_strlit(".app/Contents/MacOS/");
            }
            assert(occurs_at(exe_path@, BUNDLE_MARK@, i as int));
            let end: usize = i + 4;
            Some(take_chars(exe_path, end))
        },
        None => None,
    }
}

/// What makes the executable start at Windows logon.
pub fn enable(exe: Result<String, String>) -> (r: Result<LaunchEntry, AppError>)
    ensures
        match (exe, r) {
            (Ok(path), Ok(entry)) => entry@ == (EntryView::Registry {
                name: APP_NAME@,
                command: run_command(path@),
                approved: approved_bytes(),
            }),
            (Err(cause), Err(e)) => e@ == ErrorView::Message(failure_heading(LaunchStep::FindExecutable) + cause@),
            _ => false,
        },
{
    match exe {
        Ok(path) => {
            let approved: Vec<u8> = vec![2, 0, 0, 0, 0, 0, 0, 0, 0, 0, 0, 0];
            assert(approved@ =~= approved_bytes());
            Ok(
                LaunchEntry::Registry {
                    name: APP_NAME.to_string(),
                    command: windows_run_command(path.as_str()),
                    approved,
                },
            )
        },
        Err(cause) => Err(launch_failure(LaunchStep::FindExecutable, cause.as_str())),
    }
}

/// Whether the entry was taken away, given what became of the value under the
/// run key: only a value that resists is an error.
pub fn disable(outcome: DeleteOutcome) -> (r: Result<(), AppError>)
    ensures
        match (outcome, r) {
            (DeleteOutcome::Failed(cause), Err(e)) => e@ == ErrorView::Message(
                failure_heading(LaunchStep::DeleteRunValue) + cause@,
            ),
            (DeleteOutcome::Failed(_), Ok(_)) => false,
            (_, r) => r is Ok,
        },
{
    match outcome {
        DeleteOutcome::Failed(cause) => Err(
            launch_failure(LaunchStep::DeleteRunValue, cause.as_str()),
        ),
        _ => Ok(()),
    }
}

/// Whether the registry makes the application start at logon.
pub fn is_enabled(run: &Option<String>, approved: &Option<Vec<u8>>) -> (r: bool)
    ensures
        r == registry_enabled(opt_view(*run), bytes_view(*approved)),
{
    match run {
        Some(command) => {
            let command: String = trim(command.as_str());
            if command.as_str().is_empty() {
                return false;
            }
        },
        None => {
            return false;
        },
    }
    match approved {
        Some(bytes) => {
            if bytes.len() >= 4 {
                let status: u32 = bytes[0] as u32 + bytes[1] as u32 * 0x100 + bytes[2] as u32
                    * 0x1_0000 + bytes[3] as u32 * 0x100_0000;
                !(status == 6 || status == 7)
            } else {
                true
            }
        },
        None => true,
    }
}

/// The path that a login item opens: on macOS the bundle of the executable,
/// if it is in one, since the executable itself would open a terminal.
pub open spec fn is_login_path(platform: Platform, path: Seq<char>, exe: Seq<char>) -> bool {
    if platform == Platform::MacOs && has_text(exe, BUNDLE_MARK@) {
        is_bundle_of(path, exe)
    } else {
        path == exe
    }
}

fn login_path(platform: Platform, exe: String) -> (r: String)
    ensures
        is_login_path(platform, r@, exe@),
{
    if platform == Platform::MacOs {
        match get_macos_app_bundle_path(exe.as_str()) {
            Some(bundle) => {
                assert(has_text(exe@, BUNDLE_MARK@));
                bundle
            },
            None => exe,
        }
    } else {
        exe
    }
}

/// A login item of the operating system.
#[derive(Debug)]
pub struct LoginItem {
    pub name: String,
    pub path: String,
}

/// The login item of the executable, where the platform has such items.
pub fn get_auto_launch(platform: Platform, exe: Result<String, String>) -> (r: Result<
    LoginItem,
    AppError,
>)
    ensures
        match (exe, r) {
            (Ok(path), Ok(item)) => item.name@ == APP_NAME@ && is_login_path(
                platform,
                item.path@,
                path@,
            ),
            (Err(cause), Err(e)) => e@ == ErrorView::Message(
                failure_heading(LaunchStep::FindExecutable) + cause@,
            ),
            _ => false,
        },
{
    match exe {
        Ok(path) => Ok(
            LoginItem { name: APP_NAME.to_string(), path: login_path(platform, path) },
        ),
        Err(cause) => Err(launch_failure(LaunchStep::FindExecutable, cause.as_str())),
    }
}

/// What makes the executable start at logon on the given platform.
pub open spec fn is_entry_for(platform: Platform, exe: Seq<char>, entry: EntryView) -> bool {
    match entry {
        EntryView::Registry { name, command, approved } => {
            &&& platform == Platform::Windows
            &&& name == APP_NAME@
            &&& command == run_command(exe)
            &&& approved == approved_bytes()
        },
        EntryView::LoginItem { name, path } => {
            &&& platform != Platform::Windows
            &&& name == APP_NAME@
            &&& is_login_path(platform, path, exe)
        },
    }
}

/// What is to be written so that the application starts at logon.
pub fn enable_auto_launch(platform: Platform, exe: Result<String, String>) -> (r: Result<
    LaunchEntry,
    AppError,
>)
    ensures
        match (exe, r) {
            (Ok(path), Ok(entry)) => is_entry_for(platform, path@, entry@),
            (Err(cause), Err(e)) => e@ == ErrorView::Message(failure_heading(LaunchStep::FindExecutable) + cause@),
            _ => false,
        },
{
    if platform == Platform::Windows {
        return enable(exe);
    }
    match get_auto_launch(platform, exe) {
        Ok(item) => Ok(LaunchEntry::LoginItem { name: item.name, path: item.path }),
        Err(e) => Err(e),
    }
}

/// What is to be taken away so that the application no longer starts at
/// logon. The path of the executable matters only where there are login items.
pub fn disable_auto_launch(platform: Platform, exe: Result<String, String>) -> (r: Result<
    LaunchRemoval,
    AppError,
>)
    ensures
        match r {
            Ok(LaunchRemoval::Registry { name }) => platform == Platform::Windows && name@
                == APP_NAME@,
            Ok(LaunchRemoval::LoginItem { name, path }) => {
                &&& platform != Platform::Windows
                &&& exe is Ok
                &&& name@ == APP_NAME@
                &&& is_login_path(platform, path@, exe->Ok_0@)
            },
            Err(e) => {
                &&& platform != Platform::Windows
                &&& exe is Err
                &&& e@ == ErrorView::Message(failure_heading(LaunchStep::FindExecutable) + exe->Err_0@)
            },
        },
{
    if platform == Platform::Windows {
        return Ok(LaunchRemoval::Registry { name: APP_NAME.to_string() });
    }
    match get_auto_launch(platform, exe) {
        Ok(item) => Ok(LaunchRemoval::LoginItem { name: item.name, path: item.path }),
        Err(e) => Err(e),
    }
}

/// Whether the application starts at logon, given what the operating system
/// says.
pub fn is_auto_launch_enabled(status: LaunchStatus) -> (r: Result<bool, AppError>)
    ensures
        match (status, r) {
            (LaunchStatus::Registry { run, approved }, Ok(on)) => on == registry_enabled(
                opt_view(run),
                bytes_view(approved),
            ),
            (LaunchStatus::LoginItem(Ok(answer)), Ok(on)) => on == answer,
            (LaunchStatus::LoginItem(Err(cause)), Err(e)) => e@ == ErrorView::Message(
                failure_heading(LaunchStep::CheckLoginItem) + cause@,
            ),
            _ => false,
        },
{
    match status {
        LaunchStatus::Registry { run, approved } => Ok(is_enabled(&run, &approved)),
        LaunchStatus::LoginItem(Ok(answer)) => Ok(answer),
        LaunchStatus::LoginItem(Err(cause)) => Err(
            launch_failure(LaunchStep::CheckLoginItem, cause.as_str()),
        ),
    }
}

/// What is to be written when the application starts: the entry anew where the
/// settings ask for it, nothing otherwise.
pub fn sync_auto_launch_from_settings(
    launch_on_startup: bool,
    platform: Platform,
    exe: Result<String, String>,
) -> (r: Option<Result<LaunchEntry, AppError>>)
    ensures
        r is Some == launch_on_startup,
        match (exe, r) {
            (Ok(path), Some(Ok(entry))) => is_entry_for(platform, path@, entry@),
            (Err(cause), Some(Err(e))) => e@ == ErrorView::Message(
                failure_heading(LaunchStep::FindExecutable) + cause@,
            ),
            (_, None) => true,
            _ => false,
        },
{
    if launch_on_startup {
        Some(enable_auto_launch(platform, exe))
    } else {
        None
    }
}

/// The command is the path between quotes, and the path does not begin or end
/// with a quote itself.
pub proof fn law_run_command_is_quoted(path: Seq<char>)
    ensures
        run_command(path).len() >= 2,
        run_command(path)[0] == '"',
        run_command(path).last() == '"',
        ({
            let inner = run_command(path).subrange(1, run_command(path).len() - 1);
            inner.len() > 0 ==> inner[0] != '"' && inner.last() != '"'
        }),
{
    let inner = strip_both(bare_path(path), Strip::Only('"'));
    lemma_strip_both(bare_path(path), Strip::Only('"'));
    assert(run_command(path).subrange(1, run_command(path).len() - 1) =~= inner);
}

/// A path without an extended-length prefix and without quotes at its ends
/// stands in the command as it is.
pub proof fn law_plain_path_is_kept(path: Seq<char>)
    requires
        !has_prefix(path, EXTENDED_PREFIX@),
        path.len() > 0 ==> path[0] != '"' && path.last() != '"',
    ensures
        run_command(path) == seq!['"'] + path + seq!['"'],
{
    lemma_strip_nothing(path, Strip::Only('"'));
}

/// Writing the command for a command that was already written changes nothing.
pub proof fn law_run_command_is_stable(path: Seq<char>)
    ensures
        run_command(run_command(path)) == run_command(path),
{
    reveal_strlit("\\\\?\\");
    let what = Strip::Only('"');
    let inner = strip_both(bare_path(path), what);
    let command = run_command(path);
    lemma_strip_both(bare_path(path), what);
    assert(command[0] == '"');
    assert(!has_prefix(command, EXTENDED_PREFIX@)) by {
        if has_prefix(command, EXTENDED_PREFIX@) {
            assert(command.subrange(0, 0 + EXTENDED_PREFIX@.len() as int)[0] == '\\');
        }
    }
    assert(command.drop_first() =~= inner + seq!['"']);
    lemma_strip_quoted(inner);
}

proof fn lemma_strip_quoted(inner: Seq<char>)
    requires
        inner.len() > 0 ==> inner[0] != '"' && inner.last() != '"',
    ensures
        strip_both(seq!['"'] + inner + seq!['"'], Strip::Only('"')) == inner,
{
    let what = Strip::Only('"');
    let command = seq!['"'] + inner + seq!['"'];
    let tail = inner + seq!['"'];
    assert(command.drop_first() =~= tail);
    assert(strip_front(command, what) == strip_front(tail, what));
    if inner.len() > 0 {
        assert(tail[0] == inner[0]);
        assert(strip_front(tail, what) == tail);
        assert(tail.drop_last() =~= inner);
        assert(strip_back(tail, what) == strip_back(inner, what));
    } else {
        assert(tail[0] == '"');
        assert(tail.drop_first() =~= inner);
        assert(strip_front(tail, what) == strip_front(inner, what));
    }
}

/// What `enable` writes on Windows counts as enabled, and after its value is
/// gone nothing counts as enabled.
pub proof fn law_enabled_after_enable(path: Seq<char>, leftover: Option<Seq<u8>>)
    ensures
        registry_enabled(Some(run_command(path)), Some(approved_bytes())),
        registry_enabled(Some(run_command(path)), None),
        !registry_enabled(None, leftover),
{
    let command = run_command(path);
    law_run_command_is_quoted(path);
    assert(!strips(Strip::White, command[0]));
    lemma_strip_nothing(command, Strip::White);
    assert(trimmed(command) == command);
}

/// The prefix of an extended-length path is dropped from the command, and
/// nothing else is.
pub proof fn law_extended_prefix_is_dropped(path: Seq<char>)
    requires
        !has_prefix(path, "\\\\?\\"@),
    ensures
        bare_path(path) == path,
        bare_path("\\\\?\\"@ + path) == path,
        run_command("\\\\?\\"@ + path) == run_command(path),
{
    let long = "\\\\?\\"@ + path;
    reveal_strlit("\\\\?\\");
    assert(long.subrange(0, 4) =~= "\\\\?\\"@);
    assert(long.skip(4) =~= path);
}

/// Quotes around a path make no difference to the command.
pub proof fn law_quotes_are_not_doubled(path: Seq<char>)
    requires
        !has_prefix(path, "\\\\?\\"@),
        path.len() > 0 ==> path[0] != '"' && path.last() != '"',
    ensures
        run_command(seq!['"'] + path + seq!['"']) == run_command(path),
        run_command(path) == seq!['"'] + path + seq!['"'],
{
    law_plain_path_is_kept(path);
    law_run_command_is_stable(path);
}

/// An entry with a command counts as switched off exactly if Windows keeps the
/// number six or seven for it; fewer than four bytes are no number. Without a
/// command there is nothing to switch.
pub proof fn law_which_entries_are_enabled(command: Seq<char>, bytes: Seq<u8>)
    ensures
        registry_enabled(Some(command), None) <==> trimmed(command).len() > 0,
        bytes.len() < 4 ==> (registry_enabled(Some(command), Some(bytes)) <==> trimmed(
            command,
        ).len() > 0),
        bytes.len() >= 4 ==> (registry_enabled(Some(command), Some(bytes)) <==> trimmed(
            command,
        ).len() > 0 && !((bytes[0] == 6 || bytes[0] == 7) && bytes[1] == 0 && bytes[2] == 0
            && bytes[3] == 0)),
        !registry_enabled(None, Some(bytes)),
        !registry_enabled(None, None),
{
}

/// A bundle is a directory that ends in `.app`, and the executable lies in its
/// `Contents/MacOS`; of several it is the outermost, so there is only one.
pub proof fn law_bundles_hold_the_executable(
    bundle: Seq<char>,
    other: Seq<char>,
    path: Seq<char>,
)
    requires
        is_bundle_of(bundle, path),
    ensures
        bundle.len() >= 4,
        bundle.skip(bundle.len() - 4) == ".app"@,
        has_prefix(path, bundle + "/Contents/MacOS/"@),
        is_bundle_of(other, path) ==> other == bundle,
{
    reveal_strlit(".app/Contents/MacOS/");
    reveal_strlit(".app");
    reveal_strlit("/Contents/MacOS/");
    let mark = BUNDLE_MARK@;
    assert(mark.len() == 20 && ".app"@.len() == 4 && "/Contents/MacOS/"@.len() == 16);
    assert(mark =~= ".app"@ + "/Contents/MacOS/"@);
    let i = choose|i: int|
        #![trigger occurs_at(path, BUNDLE_MARK@, i)]
        occurs_at(path, BUNDLE_MARK@, i) && bundle == path.take(i + 4) && forall|j: int|
            0 <= j < i ==> !occurs_at(path, BUNDLE_MARK@, j);
    let found = path.subrange(i, i + 20);
    assert(found == mark);
    assert(bundle.skip(bundle.len() - 4) =~= found.take(4));
    assert(found.take(4) =~= ".app"@);
    let whole = bundle + "/Contents/MacOS/"@;
    assert(found.skip(4) =~= "/Contents/MacOS/"@);
    assert(path.subrange(0, whole.len() as int) =~= bundle + found.skip(4));
    if is_bundle_of(other, path) {
        let k = choose|k: int|
            #![trigger occurs_at(path, BUNDLE_MARK@, k)]
            occurs_at(path, BUNDLE_MARK@, k) && other == path.take(k + 4) && forall|j: int|
                0 <= j < k ==> !occurs_at(path, BUNDLE_MARK@, j);
        assert(occurs_at(path, BUNDLE_MARK@, i) && occurs_at(path, BUNDLE_MARK@, k));
        assert(i == k);
    }
}

/// On macOS the login item of an executable in a bundle does not open the
/// executable but a directory above it, which reaches no further than the
/// bundle.
pub proof fn law_login_items_open_the_bundle(
    front: Seq<char>,
    back: Seq<char>,
    path: Seq<char>,
)
    ensures
        is_login_path(Platform::MacOs, path, front + ".app/Contents/MacOS/"@ + back)
            ==> has_prefix(front + ".app"@, path) && path != front + ".app/Contents/MacOS/"@ + back,
{
    let mark = ".app/Contents/MacOS/"@;
    let exe = front + mark + back;
    let n = front.len() as int;
    assert(exe.subrange(n, n + mark.len()) =~= mark);
    assert(occurs_at(exe, mark, n));
    if is_login_path(Platform::MacOs, path, exe) {
        assert(has_text(exe, mark));
        let i = lemma_bundle_end(path, exe, n);
        lemma_front_of_bundle(front, back, i);
    }
}

proof fn lemma_front_of_bundle(front: Seq<char>, back: Seq<char>, i: int)
    requires
        0 <= i <= front.len(),
    ensures
        ({
            let exe = front + ".app/Contents/MacOS/"@ + back;
            has_prefix(front + ".app"@, exe.take(i + 4)) && exe.take(i + 4) != exe
        }),
{
    reveal_strlit(".app/Contents/MacOS/");
    reveal_strlit(".app");
    let exe = front + ".app/Contents/MacOS/"@ + back;
    let short = front + ".app"@;
    assert(".app/Contents/MacOS/"@.len() == 20);
    assert(exe.take(i + 4).len() == i + 4);
    assert(short.subrange(0, i + 4) =~= exe.take(i + 4));
}

proof fn lemma_bundle_end(bundle: Seq<char>, path: Seq<char>, n: int) -> (i: int)
    requires
        is_bundle_of(bundle, path),
        occurs_at(path, BUNDLE_MARK@, n),
    ensures
        0 <= i <= n,
        bundle == path.take(i + 4),
{
    choose|i: int|
        #![trigger occurs_at(path, BUNDLE_MARK@, i)]
        occurs_at(path, BUNDLE_MARK@, i) && bundle == path.take(i + 4) && forall|j: int|
            0 <= j < i ==> !occurs_at(path, BUNDLE_MARK@, j)
}

/// Only on macOS does a login item open anything but the executable, and there
/// only where that lies in a bundle.
pub proof fn law_login_items_open_the_executable(
    platform: Platform,
    path: Seq<char>,
    exe: Seq<char>,
)
    requires
        is_login_path(platform, path, exe),
    ensures
        platform != Platform::MacOs ==> path == exe,
        !has_text(exe, ".app/Contents/MacOS/"@) ==> path == exe,
{
}

/// On Windows the entry is a quoted command that is marked as approved; on the
/// other platforms it is a login item. Either has the name of the application.
pub proof fn law_entries_by_platform(platform: Platform, exe: Seq<char>, entry: EntryView)
    requires
        is_entry_for(platform, exe, entry),
    ensures
        platform == Platform::Windows <==> entry is Registry,
        entry matches EntryView::Registry { name, command, approved } ==> {
            &&& name == "CC Switch"@
            &&& command == run_command(exe)
            &&& approved.len() == 12
            &&& approved[0] == 2
            &&& forall|i: int| 1 <= i < 12 ==> (#[trigger] approved[i]) == 0
        },
        entry matches EntryView::LoginItem { name, path } ==> name == "CC Switch"@
            && is_login_path(platform, path, exe),
{
}

/// The message about a failed step begins with the word for what was tried: not
/// being able, writing, deleting, making, enabling, disabling, checking.
pub proof fn law_messages_say_what_was_tried(step: LaunchStep)
    ensures
        step == LaunchStep::FindExecutable <==> has_prefix(failure_heading(step), "无法"@),
        step == LaunchStep::WriteRunValue <==> has_prefix(failure_heading(step), "写入"@),
        step == LaunchStep::DeleteRunValue <==> has_prefix(failure_heading(step), "删除"@),
        step == LaunchStep::BuildLoginItem <==> has_prefix(failure_heading(step), "创建"@),
        step == LaunchStep::EnableLoginItem <==> has_prefix(failure_heading(step), "启用"@),
        step == LaunchStep::DisableLoginItem <==> has_prefix(failure_heading(step), "禁用"@),
        step == LaunchStep::CheckLoginItem <==> has_prefix(failure_heading(step), "检查"@),
{
    reveal_strlit("无法获取应用路径: ");
    reveal_strlit("无法");
    reveal_strlit("写入开机自启注册表失败: ");
    reveal_strlit("写入");
    reveal_strlit("删除开机自启注册表失败: ");
    reveal_strlit("删除");
    reveal_strlit("创建 AutoLaunch 失败: ");
    reveal_strlit("创建");
    reveal_strlit("启用开机自启失败: ");
    reveal_strlit("启用");
    reveal_strlit("禁用开机自启失败: ");
    reveal_strlit("禁用");
    reveal_strlit("检查开机自启状态失败: ");
    reveal_strlit("检查");
    let heading = failure_heading(step);
    let begin = heading.subrange(0, 2);
    assert(begin.len() == 2 && begin[0] == heading[0] && begin[1] == heading[1]);
    assert(step == LaunchStep::FindExecutable ==> begin =~= "无法"@);
    assert(step == LaunchStep::WriteRunValue ==> begin =~= "写入"@);
    assert(step == LaunchStep::DeleteRunValue ==> begin =~= "删除"@);
    assert(step == LaunchStep::BuildLoginItem ==> begin =~= "创建"@);
    assert(step == LaunchStep::EnableLoginItem ==> begin =~= "启用"@);
    assert(step == LaunchStep::DisableLoginItem ==> begin =~= "禁用"@);
    assert(step == LaunchStep::CheckLoginItem ==> begin =~= "检查"@);
}

} // verus!
