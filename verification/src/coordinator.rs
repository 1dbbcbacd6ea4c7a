//! Start-up: which process serves, and what a process does that finds another one
//! serving already.
//!
//! At most one process serves a given address. A process learns whether it is that
//! one by taking a lock named after the address ([`instance_id`]); what it does
//! next is decided by [`startup`]. A process that is not to serve never binds a
//! listener. Asked to show something, it goes through the watched directory: it
//! copies the file there, where the serving process will find it like any other
//! new graph, and points a browser at the serving process ([`open_plan`]).

use crate::names::{join, joined};
use crate::text::{decimal, push_decimal};
use vstd::prelude::*;
use vstd::string::*;

verus! {

/// What a process does once it knows whether it holds the lock for its address.
#[derive(Clone, Copy, PartialEq, Eq, Structural, Debug)]
pub enum StartupAction {
    /// This process is the one that serves: it starts the watcher and the listener.
    /// With `open_when_ready` it also opens the view, trying again until the
    /// listener answers, and ends when the last session has left.
    Serve { open_when_ready: bool },
    /// Another process serves. This one opens the view there and ends.
    OpenOnRunning,
    /// Another process serves and nothing was asked to be shown. This one ends at
    /// once; that is no failure, and nothing is reported.
    Exit,
}

/// Whether the process was started to show something: a given file, or just the
/// view.
pub open spec fn wants_open(has_dot_file: bool, open: bool) -> bool {
    has_dot_file || open
}

/// What a process does at start-up.
pub open spec fn startup_action(is_single: bool, has_dot_file: bool, open: bool) -> StartupAction {
    if is_single {
        StartupAction::Serve { open_when_ready: wants_open(has_dot_file, open) }
    } else if wants_open(has_dot_file, open) {
        StartupAction::OpenOnRunning
    } else {
        StartupAction::Exit
    }
}

/// Decides what a process does at start-up. `is_single` says whether it got the
/// lock for its address; `has_dot_file` and `open` say what it was asked to show.
pub fn startup(is_single: bool, has_dot_file: bool, open: bool) -> (action: StartupAction)
    ensures
        action == startup_action(is_single, has_dot_file, open),
        !is_single ==> !(action is Serve),
{
    if is_single {
        StartupAction::Serve { open_when_ready: has_dot_file || open }
    } else if has_dot_file || open {
        StartupAction::OpenOnRunning
    } else {
        StartupAction::Exit
    }
}

/// Tells whether the process ends when its last session has left: it does when it
/// was started to show something, and a plain server does not.
pub fn exit_on_socket_close(has_dot_file: bool, open: bool) -> (r: bool)
    ensures
        r == wants_open(has_dot_file, open),
{
    has_dot_file || open
}

/// The name of the lock for an address.
pub open spec fn instance_id_of(address: Seq<char>, port: u16) -> Seq<char> {
    "gstdots-"@ + address + "-"@ + decimal(port as nat)
}

/// The URL under which the server at an address is reached.
pub open spec fn http_address_of(address: Seq<char>, port: u16) -> Seq<char> {
    "http://"@ + address + ":"@ + decimal(port as nat)
}

/// The socket address that the server at an address listens on.
pub open spec fn bind_address_of(address: Seq<char>, port: u16) -> Seq<char> {
    address + ":"@ + decimal(port as nat)
}

/// Names the lock that the one serving process for `address` and `port` holds.
pub fn instance_id(address: &str, port: u16) -> (id: String)
    ensures
        id@ == instance_id_of(address@, port),
{
    let mut id = "gstdots-".to_owned();
    id.append(address);
    id.append("-");
    push_decimal(&mut id, port as u64);
    id
}

/// Writes the URL of the server at `address` and `port`.
pub fn http_address(address: &str, port: u16) -> (url: String)
    ensures
        url@ == http_address_of(address@, port),
{
    let mut url = "http://".to_owned();
    url.append(address);
    url.append(":");
    push_decimal(&mut url, port as u64);
    url
}

/// Writes the socket address to listen on.
pub fn bind_address(address: &str, port: u16) -> (socket: String)
    ensures
        socket@ == bind_address_of(address@, port),
{
    let mut socket = address.to_owned();
    socket.append(":");
    push_decimal(&mut socket, port as u64);
    socket
}

/// What opening the view takes.
#[derive(Clone, PartialEq, Eq, Debug)]
pub struct OpenPlan {
    /// Where to copy the file to show, if one was given.
    pub copy_to: Option<String>,
    /// The URL to point the browser at.
    pub url: String,
}

/// The mathematical content of an [`OpenPlan`].
pub ghost struct OpenPlanView {
    pub copy_to: Option<Seq<char>>,
    pub url: Seq<char>,
}

impl View for OpenPlan {
    type V = OpenPlanView;

    open spec fn view(&self) -> OpenPlanView {
        OpenPlanView {
            copy_to: match self.copy_to {
                Some(path) => Some(path@),
                None => None,
            },
            url: self.url@,
        }
    }
}

/// The plan for opening the view, if there is anything to open. With a file to
/// show, the file goes into the watched directory under its own name and the URL
/// names it; asked only to open the view, the URL is that of the server; asked
/// for neither, there is no plan.
pub open spec fn open_plan_of(
    http_address: Seq<char>,
    dot_dir: Seq<char>,
    dot_file_name: Option<Seq<char>>,
    open: bool,
) -> Option<OpenPlanView> {
    match dot_file_name {
        Some(name) => Some(
            OpenPlanView {
                copy_to: Some(joined(dot_dir, name)),
                url: http_address + "?pipeline="@ + name,
            },
        ),
        None => if open {
            Some(OpenPlanView { copy_to: None, url: http_address })
        } else {
            None
        },
    }
}

/// Plans the opening of the view. `dot_file_name` is the last component of the
/// path of the file to show, if one was given; `open` says whether the view was
/// asked for.
pub fn open_plan(
    http_address: &str,
    dot_dir: &str,
    dot_file_name: Option<&str>,
    open: bool,
) -> (plan: Option<OpenPlan>)
    ensures
        plan is Some <==> wants_open(dot_file_name is Some, open),
        match plan {
            Some(p) => Some(p@),
            None => None,
        } == open_plan_of(
            http_address@,
            dot_dir@,
            match dot_file_name {
                Some(name) => Some(name@),
                None => None,
            },
            open,
        ),
{
    match dot_file_name {
        Some(name) => {
            let mut url = http_address.to_owned();
            url.append("?pipeline=");
            url.append(name);
            Some(OpenPlan { copy_to: Some(join(dot_dir, name)), url })
        },
        None => {
            if open {
                Some(OpenPlan { copy_to: None, url: http_address.to_owned() })
            } else {
                None
            }
        },
    }
}

/// How an attempt to open the view ended.
#[derive(Clone, Copy, PartialEq, Eq, Structural, Debug)]
pub enum OpenAttempt {
    /// The browser was launched.
    Opened,
    /// There was nothing to open.
    Nothing,
    /// Copying the file or launching the browser failed.
    Failed,
}

impl OpenAttempt {
    /// Whether the serving process tries again after this attempt: it stops once
    /// the view is open, and it stops on a failure, which it reports.
    pub open spec fn retries(self) -> bool {
        self is Nothing
    }

    /// Tells whether to try again after this attempt.
    pub fn retry(self) -> (again: bool)
        ensures
            again == self.retries(),
    {
        match self {
            OpenAttempt::Nothing => true,
            OpenAttempt::Opened | OpenAttempt::Failed => false,
        }
    }
}

/// The cache directory of the user: the one the environment names, if it names a
/// non-empty one; else the one the platform knows; else `.cache` under the home
/// directory, or under `root` where no home directory is known.
pub open spec fn cache_dir_of(
    xdg_cache_home: Option<Seq<char>>,
    platform_cache: Option<Seq<char>>,
    home: Option<Seq<char>>,
    root: Seq<char>,
) -> Seq<char> {
    if xdg_cache_home is Some && xdg_cache_home->0.len() > 0 {
        xdg_cache_home->0
    } else if platform_cache is Some {
        platform_cache->0
    } else if home is Some {
        joined(home->0, ".cache"@)
    } else {
        joined(root, ".cache"@)
    }
}

/// Picks the cache directory of the user from what the environment offers.
pub fn user_cache_dir(
    xdg_cache_home: Option<&str>,
    platform_cache: Option<&str>,
    home: Option<&str>,
    root: &str,
) -> (dir: String)
    ensures
        dir@ == cache_dir_of(
            match xdg_cache_home {
                Some(d) => Some(d@),
                None => None,
            },
            match platform_cache {
                Some(d) => Some(d@),
                None => None,
            },
            match home {
                Some(d) => Some(d@),
                None => None,
            },
            root@,
        ),
{
    if let Some(dir) = xdg_cache_home {
        if dir.unicode_len() > 0 {
            return dir.to_owned();
        }
    }
    if let Some(dir) = platform_cache {
        return dir.to_owned();
    }
    match home {
        Some(home) => join(home, ".cache"),
        None => join(root, ".cache"),
    }
}

/// The watched directory: the one given, or `gstreamer-dots` in the cache
/// directory of the user.
pub open spec fn dot_dir_of(dotdir: Option<Seq<char>>, cache_dir: Seq<char>) -> Seq<char> {
    match dotdir {
        Some(dir) => dir,
        None => joined(cache_dir, "gstreamer-dots"@),
    }
}

/// Picks the directory to watch.
pub fn dot_dir(dotdir: Option<&str>, cache_dir: &str) -> (dir: String)
    ensures
        dir@ == dot_dir_of(
            match dotdir {
                Some(d) => Some(d@),
                None => None,
            },
            cache_dir@,
        ),
{
    match dotdir {
        Some(dir) => dir.to_owned(),
        None => join(cache_dir, "gstreamer-dots"),
    }
}

} // verus!
