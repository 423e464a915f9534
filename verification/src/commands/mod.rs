//! The commands.
pub mod action;
pub mod capture;
pub mod console;
pub mod context;
pub mod cookie;
pub mod cookies;
pub mod device;
pub mod diff;
pub mod dom;
pub mod eval;
pub mod fetch;
pub mod find;
pub mod frame;
pub mod frames;
pub mod install;
pub mod ipc_helper;
pub mod network;
pub mod picture;
pub mod policy;
pub mod profile;
pub mod record;
pub mod self_cmd;
pub mod session;
pub mod setup;
pub mod status;
pub mod tab;
pub mod tabs;
pub mod uninstall;
pub mod wait;

use crate::commands::action::ActionArgs;
use crate::commands::capture::CaptureArgs;
use crate::commands::console::ConsoleArgs;
use crate::commands::context::ContextArgs;
use crate::commands::cookie::CookieArgs;
use crate::commands::device::DeviceArgs;
use crate::commands::diff::DiffArgs;
use crate::commands::dom::DomArgs;
use crate::commands::eval::EvalArgs;
use crate::commands::fetch::FetchArgs;
use crate::commands::find::FindArgs;
use crate::commands::frame::FrameArgs;
use crate::commands::network::NetworkArgs;
use crate::commands::policy::PolicyArgs;
use crate::commands::profile::ProfileArgs;
use crate::commands::record::RecordArgs;
use crate::commands::self_cmd::SelfArgs;
use crate::commands::session::SessionArgs;
use crate::commands::setup::SetupArgs;
use crate::commands::tab::TabArgs;
use crate::commands::uninstall::UninstallArgs;
use crate::commands::wait::WaitArgs;
use crate::mcp::McpArgs;
use vstd::prelude::*;

verus! {

/// A command, with its arguments.
pub enum Command {
    Capture(CaptureArgs),
    Action(ActionArgs),
    Eval(EvalArgs),
    Wait(WaitArgs),
    Tab(TabArgs),
    Frame(FrameArgs),
    Dom(DomArgs),
    Fetch(FetchArgs),
    Diff(DiffArgs),
    Find(FindArgs),
    Network(NetworkArgs),
    Console(ConsoleArgs),
    Session(SessionArgs),
    Policy(PolicyArgs),
    Cookie(CookieArgs),
    Device(DeviceArgs),
    Profile(ProfileArgs),
    Record(RecordArgs),
    Status,
    Context(ContextArgs),
    Setup(SetupArgs),
    SelfCmd(SelfArgs),
    Uninstall(UninstallArgs),
    Mcp(McpArgs),
    Quit,
}

} // verus!
