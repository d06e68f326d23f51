//! Process-launcher decisions and error messages.
//!
//! Spawning a process is the surrounding binary's job; this module
//! decides, for each of the two launch operations, what command the
//! operating system is asked to run and what result the caller is
//! handed for every possible OS answer.
//!
//! - `launch_typora_command` turns the stored configuration value into
//!   either the executable to spawn or the configuration-missing error.
//! - `url_spawn_plan` names the platform's URL-opening command.
//! - the `*_outcome` functions map the OS's answer to the spawn request
//!   (accepted, or refused with an error text) to the operation's
//!   result, so that every failure surfaces as a descriptive string.

use vstd::prelude::*;

use crate::store::configured;

verus! {

/// The host platforms the launcher distinguishes.
#[derive(Clone, Copy, Debug)]
pub enum Platform {
    Windows,
    MacOs,
    Linux,
    Other,
}

/// A detached process the binary is asked to spawn: a program and its
/// arguments, handed to the OS verbatim.
pub struct SpawnPlan {
    pub program: String,
    pub args: Vec<String>,
}

impl SpawnPlan {
    /// The plan as mathematical values: program and argument strings.
    pub open spec fn model(&self) -> (Seq<char>, Seq<Seq<char>>) {
        (self.program@, self.args.deep_view())
    }
}

/// The configuration-missing error text.
pub open spec fn not_configured_message() -> Seq<char> {
    "请先配置 Typora 路径"@
}

/// The spawn-failure text for a failed editor launch, wrapping the OS
/// error `e`.
pub open spec fn launch_error_message(e: Seq<char>) -> Seq<char> {
    "无法启动 Typora: "@ + e + "。请检查路径是否正确。"@
}

/// The spawn-failure text for a failed URL open, wrapping the OS
/// error `e`.
pub open spec fn open_url_error_message(e: Seq<char>) -> Seq<char> {
    "无法打开浏览器: "@ + e
}

/// What launching decides from the stored value: the path to spawn if
/// one is configured, the configuration-missing error otherwise.
pub open spec fn launch_command_spec(v: Option<Seq<char>>) -> Result<Seq<char>, Seq<char>> {
    if configured(v) {
        Ok(v->Some_0)
    } else {
        Err(not_configured_message())
    }
}

/// The result of `launch_typora` once the OS has answered the spawn
/// request: `None` (accepted) succeeds, a refusal text `e` becomes the
/// spawn-failure error.
pub open spec fn launch_outcome_spec(outcome: Option<Seq<char>>) -> Result<(), Seq<char>> {
    match outcome {
        None => Ok(()),
        Some(e) => Err(launch_error_message(e)),
    }
}

/// The result of `open_url` once the OS has answered the spawn request.
pub open spec fn open_url_outcome_spec(outcome: Option<Seq<char>>) -> Result<(), Seq<char>> {
    match outcome {
        None => Ok(()),
        Some(e) => Err(open_url_error_message(e)),
    }
}

/// The platform's command for opening a URL in the default browser:
/// `cmd /C start "" <url>`, `open <url>`, or `xdg-open <url>`; no
/// command on other platforms. The URL is passed through verbatim.
pub open spec fn url_spawn_plan_spec(p: Platform, url: Seq<char>) -> Option<
    (Seq<char>, Seq<Seq<char>>),
> {
    match p {
        Platform::Windows => Some(("cmd"@, seq!["/C"@, "start"@, ""@, url])),
        Platform::MacOs => Some(("open"@, seq![url])),
        Platform::Linux => Some(("xdg-open"@, seq![url])),
        Platform::Other => None,
    }
}

/// Builds the configuration-missing error.
pub fn not_configured_error() -> (r: String)
    ensures
        r@ == not_configured_message(),
{
    String::from_str("请先配置 Typora 路径")
}

/// Builds the editor spawn-failure error around the OS error text.
pub fn launch_error(os_error: &str) -> (r: String)
    ensures
        r@ == launch_error_message(os_error@),
{
    let mut r = String::from_str("无法启动 Typora: ");
    r.append(os_error);
    r.append("。请检查路径是否正确。");
    r
}

/// Builds the URL spawn-failure error around the OS error text.
pub fn open_url_error(os_error: &str) -> (r: String)
    ensures
        r@ == open_url_error_message(os_error@),
{
    let mut r = String::from_str("无法打开浏览器: ");
    r.append(os_error);
    r
}

/// Decides the launch from the stored configuration value: the
/// executable to spawn when a non-empty path is configured, the
/// configuration-missing error when the value is absent or empty.
/// No OS call is attempted in the failing case.
pub fn launch_typora_command(value: &Option<String>) -> (r: Result<String, String>)
    ensures
        match r {
            Ok(p) => launch_command_spec(value.deep_view()) == Ok::<Seq<char>, Seq<char>>(p@),
            Err(e) => launch_command_spec(value.deep_view()) == Err::<Seq<char>, Seq<char>>(e@),
        },
{
    match value {
        Some(p) => {
            if p.as_str().is_empty() {
                Err(not_configured_error())
            } else {
                Ok(p.clone())
            }
        },
        None => Err(not_configured_error()),
    }
}

/// Maps the OS's answer to the editor spawn request to the operation's
/// result: success if the spawn was accepted, the spawn-failure error
/// around the OS text otherwise.
pub fn launch_typora_outcome(spawn_error: Option<&str>) -> (r: Result<(), String>)
    ensures
        match r {
            Ok(u) => launch_outcome_spec(spawn_error.deep_view()) == Ok::<(), Seq<char>>(u),
            Err(e) => launch_outcome_spec(spawn_error.deep_view()) == Err::<(), Seq<char>>(e@),
        },
{
    match spawn_error {
        None => Ok(()),
        Some(e) => Err(launch_error(e)),
    }
}

/// Maps the OS's answer to the URL spawn request to the operation's
/// result.
pub fn open_url_outcome(spawn_error: Option<&str>) -> (r: Result<(), String>)
    ensures
        match r {
            Ok(u) => open_url_outcome_spec(spawn_error.deep_view()) == Ok::<(), Seq<char>>(u),
            Err(e) => open_url_outcome_spec(spawn_error.deep_view()) == Err::<(), Seq<char>>(e@),
        },
{
    match spawn_error {
        None => Ok(()),
        Some(e) => Err(open_url_error(e)),
    }
}

/// Names the platform's URL-opening command for `url`, exactly as
/// `url_spawn_plan_spec` states it; `None` only on platforms without
/// one.
pub fn url_spawn_plan(platform: Platform, url: &str) -> (r: Option<SpawnPlan>)
    ensures
        match r {
            Some(plan) => url_spawn_plan_spec(platform, url@) == Some(plan.model()),
            None => url_spawn_plan_spec(platform, url@) is None,
        },
{
    match platform {
        Platform::Windows => {
            let mut args: Vec<String> = Vec::new();
            args.push(String::from_str("/C"));
            args.push(String::from_str("start"));
            args.push(String::from_str(""));
            args.push(String::from_str(url));
            let plan = SpawnPlan { program: String::from_str("cmd"), args };
            proof {
                assert(plan.args.deep_view() =~= seq!["/C"@, "start"@, ""@, url@]);
            }
            Some(plan)
        },
        Platform::MacOs => {
            let mut args: Vec<String> = Vec::new();
            args.push(String::from_str(url));
            let plan = SpawnPlan { program: String::from_str("open"), args };
            proof {
                assert(plan.args.deep_view() =~= seq![url@]);
            }
            Some(plan)
        },
        Platform::Linux => {
            let mut args: Vec<String> = Vec::new();
            args.push(String::from_str(url));
            let plan = SpawnPlan { program: String::from_str("xdg-open"), args };
            proof {
                assert(plan.args.deep_view() =~= seq![url@]);
            }
            Some(plan)
        },
        Platform::Other => None,
    }
}

/// `open_url` is total: for every URL there is a command on the three
/// supported platforms, and for every OS answer the operation yields
/// either success or the spawn-failure error around the OS text —
/// nothing else, and no unhandled failure.
pub proof fn lemma_open_url_total(p: Platform, url: Seq<char>, outcome: Option<Seq<char>>)
    ensures
        !(p is Other) ==> url_spawn_plan_spec(p, url) is Some,
        outcome is None ==> open_url_outcome_spec(outcome) == Ok::<(), Seq<char>>(()),
        outcome matches Some(e) ==> open_url_outcome_spec(outcome) == Err::<(), Seq<char>>(
            open_url_error_message(e),
        ),
{
}

/// With no value configured, the launcher fails with the
/// configuration-missing error, and the store reads back as absent.
pub proof fn lemma_unset_behaviour()
    ensures
        crate::store::store_read(None) is None,
        launch_command_spec(None) == Err::<Seq<char>, Seq<char>>(not_configured_message()),
{
}

/// Setting the empty string makes the launcher behave exactly as if no
/// value were set.
pub proof fn lemma_empty_behaves_as_unset()
    ensures
        launch_command_spec(crate::store::store_after_set(Seq::<char>::empty()))
            == launch_command_spec(None),
{
}

} // verus!
