//! How a command reaches the code that carries it out.
use crate::commands::context::ContextCommand;
use crate::commands::setup::nm_host;
use crate::commands::setup::nm_host::is_valid_extension_id;
use crate::commands::Command;
use crate::error;
use crate::error::{ErrorView, WebPilotError};
use crate::model;
use crate::text;
use crate::text::{chars_of, slice, strip_prefix};
use vstd::prelude::*;
use vstd::string::StringExecFns;

verus! {

/// Whether a text is the id of an extension, with or without one slash behind it.
pub open spec fn is_extension_host(s: Seq<char>) -> bool {
    nm_host::is_extension_id(s) || (s.len() > 0 && s.last() == '/' && nm_host::is_extension_id(
        s.drop_last(),
    ))
}

/// Whether an argument is the origin of an extension. No other shape is one.
pub open spec fn is_extension_origin(arg: Seq<char>) -> bool {
    &&& text::has_prefix(arg, "chrome-extension://"@)
    &&& is_extension_host(arg.skip("chrome-extension://"@.len() as int))
}

fn names_extension(s: &str) -> (r: bool)
    ensures
        r == is_extension_host(s@),
{
    let chars = chars_of(s);
    let n: usize = chars.len();
    if n > 0 && chars[n - 1] == '/' && is_valid_extension_id(slice(&chars, 0, n - 1).as_str()) {
        assert(s@.subrange(0, n - 1) =~= s@.drop_last());
        return true;
    }
    proof {
        if n > 0 {
            assert(s@.subrange(0, n - 1) =~= s@.drop_last());
        }
    }
    is_valid_extension_id(s)
}

/// Whether the browser started the program as its native messaging host: its first argument is
/// then the origin of an extension, and nothing else starts the host.
pub fn is_nm_host_invocation(arg: Option<&str>) -> (r: bool)
    ensures
        r == (match arg {
            Some(a) => is_extension_origin(a@),
            None => false,
        }),
{
    match arg {
        Some(a) => match strip_prefix(a, "chrome-extension://") {
            Some(rest) => names_extension(rest.as_str()),
            None => false,
        },
        None => false,
    }
}

/// How a command is carried out.
#[derive(Debug, Clone, Copy, PartialEq, Eq, Structural)]
pub enum Execution {
    /// Without a browser.
    Local,
    /// In each mode by its own code.
    Status,
    /// By ending the headless browser.
    Quit,
    /// Only by the headless browser.
    HeadlessOnly,
    /// By either browser alike.
    TransportGeneric,
    /// As a server that runs until its input ends.
    Mcp,
}

/// How a command is carried out.
pub open spec fn execution_of(command: Command) -> Execution {
    match command {
        Command::Setup(_)
        | Command::SelfCmd(_)
        | Command::Uninstall(_)
        | Command::Diff(_)
        | Command::Policy(_) => Execution::Local,
        Command::Mcp(_) => Execution::Mcp,
        Command::Status => Execution::Status,
        Command::Quit => Execution::Quit,
        Command::Device(_) | Command::Profile(_) | Command::Record(_) | Command::Context(_) =>
            Execution::HeadlessOnly,
        _ => Execution::TransportGeneric,
    }
}

impl Command {
    /// How the command is carried out.
    pub fn execution(&self) -> (r: Execution)
        ensures
            r == execution_of(*self),
    {
        match self {
            Command::Setup(_) => Execution::Local,
            Command::SelfCmd(_) => Execution::Local,
            Command::Uninstall(_) => Execution::Local,
            Command::Diff(_) => Execution::Local,
            Command::Policy(_) => Execution::Local,
            Command::Mcp(_) => Execution::Mcp,
            Command::Status => Execution::Status,
            Command::Quit => Execution::Quit,
            Command::Device(_) => Execution::HeadlessOnly,
            Command::Profile(_) => Execution::HeadlessOnly,
            Command::Record(_) => Execution::HeadlessOnly,
            Command::Context(_) => Execution::HeadlessOnly,
            Command::Capture(_) => Execution::TransportGeneric,
            Command::Action(_) => Execution::TransportGeneric,
            Command::Eval(_) => Execution::TransportGeneric,
            Command::Wait(_) => Execution::TransportGeneric,
            Command::Tab(_) => Execution::TransportGeneric,
            Command::Frame(_) => Execution::TransportGeneric,
            Command::Dom(_) => Execution::TransportGeneric,
            Command::Find(_) => Execution::TransportGeneric,
            Command::Network(_) => Execution::TransportGeneric,
            Command::Console(_) => Execution::TransportGeneric,
            Command::Session(_) => Execution::TransportGeneric,
            Command::Fetch(_) => Execution::TransportGeneric,
            Command::Cookie(_) => Execution::TransportGeneric,
        }
    }
}

/// What a command that only the headless browser knows is called.
pub open spec fn feature(command: Command) -> Seq<char> {
    match command {
        Command::Device(_) => "device emulation"@,
        Command::Profile(_) => "CPU profiling"@,
        Command::Record(_) => "frame recording"@,
        Command::Context(_) => "context management"@,
        Command::Quit => "session lifecycle (quit)"@,
        _ => "this command"@,
    }
}

/// What a command that only the headless browser knows is called.
pub fn label_of(command: &Command) -> (r: &'static str)
    ensures
        r@ == feature(*command),
{
    match command {
        Command::Device(_) => "device emulation",
        Command::Profile(_) => "CPU profiling",
        Command::Record(_) => "frame recording",
        Command::Context(_) => "context management",
        Command::Quit => "session lifecycle (quit)",
        _ => "this command",
    }
}

/// What carries a command out.
#[derive(Debug, PartialEq, Eq)]
pub enum Route {
    /// Nothing but the program itself.
    Local,
    /// The server, which opens its browser by itself.
    Mcp,
    /// The check of the host and its manifests.
    BrowserStatus,
    /// The user's own browser, by way of the host.
    Browser,
    /// The report on the headless browser, which is not started for it.
    HeadlessStatus,
    /// The end of the headless browser.
    Quit,
    /// The list of contexts on disk.
    ContextList,
    /// The headless browser, in this context.
    Headless(Option<String>),
}

/// What a route is.
pub enum RouteView {
    Local,
    Mcp,
    BrowserStatus,
    Browser,
    HeadlessStatus,
    Quit,
    ContextList,
    Headless(Option<Seq<char>>),
}

impl View for Route {
    type V = RouteView;

    open spec fn view(&self) -> RouteView {
        match self {
            Route::Local => RouteView::Local,
            Route::Mcp => RouteView::Mcp,
            Route::BrowserStatus => RouteView::BrowserStatus,
            Route::Browser => RouteView::Browser,
            Route::HeadlessStatus => RouteView::HeadlessStatus,
            Route::Quit => RouteView::Quit,
            Route::ContextList => RouteView::ContextList,
            Route::Headless(c) => RouteView::Headless(model::maybe(*c)),
        }
    }
}

/// The route of a command. The commands about contexts never open the context that they are told
/// of, and a list of them opens no browser.
pub open spec fn route_of(command: Command, browser: bool, context: Option<Seq<char>>) -> Result<
    RouteView,
    ErrorView,
> {
    if browser && context is Some {
        Err(
            ErrorView::InvalidArgument(
                "--context is only valid in headless mode (omit --browser)"@,
            ),
        )
    } else {
        match execution_of(command) {
            Execution::Local => Ok(RouteView::Local),
            Execution::Mcp => Ok(RouteView::Mcp),
            Execution::Status => Ok(
                if browser {
                    RouteView::BrowserStatus
                } else {
                    RouteView::HeadlessStatus
                },
            ),
            Execution::Quit => if browser {
                Err(headless_only_error(command))
            } else {
                Ok(RouteView::Quit)
            },
            Execution::HeadlessOnly => if browser {
                Err(headless_only_error(command))
            } else {
                match command {
                    Command::Context(args) => if args.command is List {
                        Ok(RouteView::ContextList)
                    } else {
                        Ok(RouteView::Headless(None))
                    },
                    _ => Ok(RouteView::Headless(context)),
                }
            },
            Execution::TransportGeneric => Ok(
                if browser {
                    RouteView::Browser
                } else {
                    RouteView::Headless(context)
                },
            ),
        }
    }
}

/// The error for a command that only the headless browser knows.
pub open spec fn headless_only_error(command: Command) -> ErrorView {
    ErrorView::InvalidArgument(
        feature(command) + " is only supported in headless mode (omit --browser)"@,
    )
}

fn headless_only(command: &Command) -> (r: WebPilotError)
    ensures
        r@ == headless_only_error(*command),
{
    WebPilotError::InvalidArgument {
        detail: label_of(command).to_owned().concat(
            " is only supported in headless mode (omit --browser)",
        ),
    }
}

/// The route of a command, by the flags that it was given.
pub fn route(command: &Command, browser: bool, context: Option<String>) -> (r: Result<
    Route,
    WebPilotError,
>)
    ensures
        error::outcome(r) == route_of(*command, browser, model::maybe(context)),
{
    if browser && context.is_some() {
        return Err(
            WebPilotError::invalid("--context is only valid in headless mode (omit --browser)"),
        );
    }
    match command.execution() {
        Execution::Local => Ok(Route::Local),
        Execution::Mcp => Ok(Route::Mcp),
        Execution::Status => {
            if browser {
                Ok(Route::BrowserStatus)
            } else {
                Ok(Route::HeadlessStatus)
            }
        },
        Execution::Quit => {
            if browser {
                Err(headless_only(command))
            } else {
                Ok(Route::Quit)
            }
        },
        Execution::HeadlessOnly => {
            if browser {
                return Err(headless_only(command));
            }
            match command {
                Command::Context(args) => match args.command {
                    ContextCommand::List => Ok(Route::ContextList),
                    _ => Ok(Route::Headless(None)),
                },
                _ => Ok(Route::Headless(context)),
            }
        },
        Execution::TransportGeneric => {
            if browser {
                Ok(Route::Browser)
            } else {
                Ok(Route::Headless(context))
            }
        },
    }
}

/// The browser starts the host for an extension that a manifest may authorise, and with the very
/// origin that the manifest names.
pub proof fn law_authorised_origins_start_the_host(id: Seq<char>)
    requires
        nm_host::is_extension_id(id),
    ensures
        is_extension_origin(nm_host::origin(id)),
{
    reveal_strlit("/");
    let prefix = "chrome-extension://"@;
    let o = nm_host::origin(id);
    let rest = o.skip(prefix.len() as int);
    assert(rest =~= id.push('/')) by {
        assert("/"@ =~= seq!['/']);
        assert(o =~= prefix + id.push('/'));
    }
    assert(o.take(prefix.len() as int) =~= prefix);
    assert(text::has_prefix(o, prefix));
    assert(rest.drop_last() =~= id);
}

/// What is carried out without a browser never opens one, and what only the headless browser knows
/// never reaches the user's own.
pub proof fn law_commands_stay_where_they_belong(
    command: Command,
    browser: bool,
    context: Option<Seq<char>>,
)
    ensures
        match route_of(command, browser, context) {
            Ok(RouteView::Browser) => browser && execution_of(command) is TransportGeneric,
            Ok(RouteView::Headless(_)) => !browser && !(execution_of(command) is Local),
            Ok(RouteView::Local) => execution_of(command) is Local,
            _ => true,
        },
        browser && (execution_of(command) is HeadlessOnly || execution_of(command) is Quit)
            ==> route_of(command, browser, context) is Err,
{
}

/// A command has a name of its own exactly where the user's own browser refuses it, and no two of
/// them share one: what is refused is always said.
pub proof fn law_refused_commands_are_named(a: Command, b: Command)
    ensures
        feature(a) != "this command"@ <==> (execution_of(a) is HeadlessOnly || execution_of(
            a,
        ) is Quit),
        feature(a) != "this command"@ <==> route_of(a, true, None) is Err,
        feature(a) != "this command"@ && feature(a) == feature(b) ==> {
            &&& a is Device == b is Device
            &&& a is Profile == b is Profile
            &&& a is Record == b is Record
            &&& a is Context == b is Context
            &&& a is Quit == b is Quit
        },
{
    reveal_strlit("device emulation");
    reveal_strlit("CPU profiling");
    reveal_strlit("frame recording");
    reveal_strlit("context management");
    reveal_strlit("session lifecycle (quit)");
    reveal_strlit("this command");
    assert("device emulation"@.len() == 16 && "CPU profiling"@.len() == 13);
    assert("frame recording"@.len() == 15 && "context management"@.len() == 18);
    assert("session lifecycle (quit)"@.len() == 24 && "this command"@.len() == 12);
}

/// The program is the browser's host exactly where its first argument is the origin of an extension:
/// the scheme, 32 letters from `a` to `p`, and at most one slash.
pub proof fn law_only_an_origin_starts_the_host(id: Seq<char>, arg: &str, bare: &str, other: Option<&str>, r: bool, s: bool, t: bool)
    requires
        arg@ == "chrome-extension://"@ + id + seq!['/'],
        bare@ == "chrome-extension://"@ + id,
        id.len() == 32,
        call_ensures(is_nm_host_invocation, (Some(arg),), r),
        call_ensures(is_nm_host_invocation, (Some(bare),), s),
        call_ensures(is_nm_host_invocation, (other,), t),
    ensures
        r <==> forall|i: int| 0 <= i < id.len() ==> 'a' <= #[trigger] id[i] <= 'p',
        s <==> r,
        t ==> other is Some && text::has_prefix(other->0@, "chrome-extension://"@),
        t ==> other->0@.len() == "chrome-extension://"@.len() + 32 || other->0@.len()
            == "chrome-extension://"@.len() + 33,
{
    let prefix = "chrome-extension://"@;
    assert(arg@ =~= prefix + id.push('/'));
    let tail = arg@.skip(prefix.len() as int);
    assert(tail =~= id.push('/'));
    assert(tail.drop_last() =~= id);
    assert(arg@.take(prefix.len() as int) =~= prefix);
    assert(bare@.skip(prefix.len() as int) =~= id);
    assert(bare@.take(prefix.len() as int) =~= prefix);
    let fits = forall|i: int| 0 <= i < id.len() ==> 'a' <= #[trigger] id[i] <= 'p';
    if nm_host::is_extension_id(id) {
        assert forall|i: int| 0 <= i < id.len() implies 'a' <= #[trigger] id[i] <= 'p' by {
            assert(nm_host::is_id_char(id[i]));
        }
    }
    if fits {
        assert forall|i: int| 0 <= i < id.len() implies nm_host::is_id_char(#[trigger] id[i]) by {
        }
    }
    if !nm_host::is_extension_id(id) && id.last() == '/' {
        assert(!('a' <= id[31] <= 'p'));
        assert(id.drop_last().len() == 31);
    }
    if t {
        let o = other->0@;
        let rest = o.skip(prefix.len() as int);
        assert(rest.len() == o.len() - prefix.len());
    }
}

/// Where each command goes: what needs no browser stays with the program whatever the mode; what both
/// browsers know goes to the one of the mode, and to the named context of the headless one; what only
/// the headless one knows is refused to the user's own; and a context cannot be named there at all.
pub proof fn law_commands_are_routed(
    command: Command,
    browser: bool,
    context: Option<String>,
    r: Result<Route, WebPilotError>,
)
    requires
        call_ensures(route, (&command, browser, context), r),
    ensures
        browser && context is Some ==> (r matches Err(WebPilotError::InvalidArgument { .. })),
        !(browser && context is Some) ==> {
            let named = |c: Option<String>|
                match context {
                    Some(n) => c is Some && c->0@ == n@,
                    None => c is None,
                };
            match command {
                Command::Setup(_)
                | Command::SelfCmd(_)
                | Command::Uninstall(_)
                | Command::Diff(_)
                | Command::Policy(_) => r matches Ok(Route::Local),
                Command::Mcp(_) => r matches Ok(Route::Mcp),
                Command::Status => if browser {
                    r matches Ok(Route::BrowserStatus)
                } else {
                    r matches Ok(Route::HeadlessStatus)
                },
                Command::Quit => if browser {
                    r is Err
                } else {
                    r matches Ok(Route::Quit)
                },
                Command::Device(_) | Command::Profile(_) | Command::Record(_) => if browser {
                    r is Err
                } else {
                    r matches Ok(Route::Headless(c)) && named(c)
                },
                Command::Context(args) => if browser {
                    r is Err
                } else if args.command is List {
                    r matches Ok(Route::ContextList)
                } else {
                    r matches Ok(Route::Headless(None))
                },
                _ => if browser {
                    r matches Ok(Route::Browser)
                } else {
                    r matches Ok(Route::Headless(c)) && named(c)
                },
            }
        },
        r is Err ==> r->Err_0 is InvalidArgument,
{
}

} // verus!
