//! The terminal application that installs and starts a cluster on one machine: its state, what keys
//! and messages do to it, and which lines it shows.

use std::collections::VecDeque;

use vstd::prelude::*;

use crate::deploy::install::InstallMessage;
use crate::text::{join, join_text, texts};

verus! {

/// A line that a server has logged.
#[derive(Debug)]
pub struct ServerLogMessage {
    pub sender_id: usize,
    pub message: String,
}

/// The wish to install the server from a path. `P` is the path of a directory.
#[derive(Debug)]
pub struct StartInstallMessage<P> {
    pub path: P,
}

/// What the application is told.
#[derive(Debug)]
pub enum LocalAppMessage<P> {
    StartInstall(StartInstallMessage<P>),
    Install(InstallMessage),
    InstallComplete,
    StartServers,
    ServerLog(ServerLogMessage),
}

/// An installation that is shown.
#[derive(Debug)]
pub struct InstallState {
    /// Whether it is over.
    pub complete: bool,
    /// The line behind the last that is shown, where the user has scrolled.
    pub end_line: Option<usize>,
    /// What it has written.
    pub lines: Vec<String>,
}

/// The last lines that a server has logged.
#[derive(Debug)]
pub struct RecentLogs {
    pub log_vec: VecDeque<String>,
}

/// Servers that are shown, each with its name and its last lines, in the order of the names.
#[derive(Debug)]
pub struct InProgressState {
    pub logs: Vec<(String, RecentLogs)>,
}

/// Whether a text stands in front of another in the order of characters.
pub open spec fn comes_before(first: Seq<char>, second: Seq<char>) -> bool
    decreases first.len(),
{
    if second.len() == 0 {
        false
    } else if first.len() == 0 {
        true
    } else {
        first[0] < second[0] || (first[0] == second[0] && comes_before(
            first.skip(1),
            second.skip(1),
        ))
    }
}

/// No text stands in front of itself.
proof fn lemma_not_before_itself(text: Seq<char>)
    ensures
        !comes_before(text, text),
    decreases text.len(),
{
    if text.len() > 0 {
        lemma_not_before_itself(text.skip(1));
    }
}

impl InProgressState {
    /// The names are in order, and each occurs once.
    pub open spec fn wf(self) -> bool {
        forall|i: int, j: int|
            0 <= i < j < self.logs@.len() ==> comes_before(
                (#[trigger] self.logs@[i]).0@,
                (#[trigger] self.logs@[j]).0@,
            )
    }

    /// The texts that are shown, the one of the first server in the first column and so on.
    pub fn render(&self) -> (columns: Vec<String>)
        ensures
            columns@.len() == self.logs@.len(),
            forall|i: int|
                0 <= i < columns@.len() ==> (#[trigger] columns@[i])@ == join_text(
                    texts(self.logs@[i].1.log_vec@),
                    "\n"@,
                ),
    {
        let mut columns: Vec<String> = Vec::new();
        let mut i: usize = 0;
        while i < self.logs.len()
            invariant
                i <= self.logs@.len(),
                columns@.len() == i,
                forall|j: int|
                    0 <= j < i ==> (#[trigger] columns@[j])@ == join_text(
                        texts(self.logs@[j].1.log_vec@),
                        "\n"@,
                    ),
            decreases self.logs.len() - i,
        {
            columns.push(self.logs[i].1.render());
            i = i + 1;
        }
        columns
    }
}

/// Servers that are shown have different names.
pub proof fn law_names_occur_once(state: InProgressState, i: int, j: int)
    requires
        state.wf(),
        0 <= i < state.logs@.len(),
        0 <= j < state.logs@.len(),
        state.logs@[i].0@ == state.logs@[j].0@,
    ensures
        i == j,
{
    lemma_not_before_itself(state.logs@[i].0@);
    if i < j {
        assert(comes_before(state.logs@[i].0@, state.logs@[j].0@));
    } else if j < i {
        assert(comes_before(state.logs@[j].0@, state.logs@[i].0@));
    }
}

/// What the application does at the moment.
#[derive(Debug)]
pub enum LocalAppStateKind {
    Start,
    Install(InstallState),
    InProgress(InProgressState),
}

/// The state of the application.
#[derive(Debug)]
pub struct LocalAppState {
    /// How many servers to start.
    pub num_servers: u16,
    /// Whether what runs in the background is to stop.
    pub cancelled: bool,
    /// Whether the terminal is to be closed.
    pub exit: bool,
    pub kind: LocalAppStateKind,
}

/// An error that is shown to the user without a trace.
#[derive(Debug)]
pub struct NoBacktraceError {
    pub msg: String,
}

impl NoBacktraceError {
    /// The error with a text.
    pub fn msg(msg: String) -> (error: Self)
        ensures
            error.msg == msg,
    {
        NoBacktraceError { msg }
    }

    /// How the error is shown.
    pub fn show(&self) -> (text: String)
        ensures
            text@ == self.msg@,
    {
        self.msg.clone()
    }
}

/// The message that starts the application: it installs where there is a path to install from.
pub fn first_message<P>(reinstall_path: Option<P>) -> (message: LocalAppMessage<P>)
    ensures
        message == match reinstall_path {
            Some(path) => LocalAppMessage::StartInstall(StartInstallMessage { path }),
            None => LocalAppMessage::StartServers,
        },
{
    match reinstall_path {
        Some(path) => LocalAppMessage::StartInstall(StartInstallMessage { path }),
        None => LocalAppMessage::StartServers,
    }
}

impl InstallState {
    /// The line behind the last that is shown.
    pub open spec fn end_index(self) -> int {
        match self.end_line {
            Some(end_line) => end_line as int,
            None => self.lines@.len() as int,
        }
    }

    /// The end of the window once the user has scrolled up: at the top it stays, and from
    /// the end of the output it first only stops following the output.
    pub open spec fn scrolled_up(self) -> Option<usize> {
        match self.end_line {
            Some(end_line) => Some(
                if end_line == 0 {
                    end_line
                } else {
                    (end_line - 1) as usize
                },
            ),
            None => Some(self.lines@.len() as usize),
        }
    }

    /// The end of the window once the user has scrolled down.
    pub open spec fn scrolled_down(self) -> Option<usize> {
        match self.end_line {
            Some(end_line) => Some(
                if end_line == 0 {
                    end_line
                } else {
                    (end_line + 1) as usize
                },
            ),
            None => Some(self.lines@.len() as usize),
        }
    }

    /// Whether a window of the given height can be shown: the user has not scrolled past it.
    pub open spec fn can_show(self, height: int) -> bool {
        self.end_index() - height <= self.lines@.len()
    }

    /// The first line that is shown in a window of the given height.
    pub open spec fn window_start(self, height: int) -> int {
        if self.end_index() > height {
            self.end_index() - height
        } else {
            0
        }
    }

    /// The line behind the last that is shown.
    pub open spec fn window_end(self) -> int {
        if self.end_index() < self.lines@.len() {
            self.end_index()
        } else {
            self.lines@.len() as int
        }
    }

    /// The lines that are shown in a window of the given height.
    pub open spec fn window(self, height: int) -> Seq<Seq<char>> {
        texts(self.lines@).subrange(self.window_start(height), self.window_end())
    }

    /// Whether the user is asked to go on: once the installation is over.
    pub fn asks_to_continue(&self) -> (asks: bool)
        ensures
            asks <==> self.complete,
    {
        self.complete
    }

    /// Tells whether a window of the given height can be shown.
    pub fn check_show(&self, height: usize) -> (can: bool)
        ensures
            can <==> self.can_show(height as int),
    {
        match self.end_line {
            Some(end_line) => end_line <= height || end_line - height <= self.lines.len(),
            None => true,
        }
    }

    /// The text that is shown in a window of the given height.
    pub fn render_install_frame(&self, height: usize) -> (text: String)
        requires
            self.can_show(height as int),
        ensures
            text@ == join_text(self.window(height as int), ""@),
    {
        let end_index: usize = match self.end_line {
            Some(end_line) => end_line,
            None => self.lines.len(),
        };
        let start: usize = if end_index > height {
            end_index - height
        } else {
            0
        };
        let end: usize = if end_index < self.lines.len() {
            end_index
        } else {
            self.lines.len()
        };
        let mut shown: Vec<String> = Vec::new();
        let mut i: usize = start;
        while i < end
            invariant
                start <= i <= end,
                end <= self.lines@.len(),
                texts(shown@) == texts(self.lines@).subrange(start as int, i as int),
            decreases end - i,
        {
            let ghost before = shown@;
            shown.push(self.lines[i].clone());
            i = i + 1;
            assert(texts(shown@) =~= texts(before).push(self.lines@[i - 1]@));
            assert(texts(self.lines@).subrange(start as int, i as int) =~= texts(
                self.lines@,
            ).subrange(start as int, i - 1).push(self.lines@[i - 1]@));
        }
        join(&shown, "")
    }
}

/// No window shows more lines than its height.
pub proof fn law_window_fits(state: InstallState, height: int)
    requires
        0 <= height,
        state.can_show(height),
    ensures
        0 <= state.window_start(height) <= state.window_end() <= state.lines@.len(),
        state.window(height).len() <= height,
{
}

/// A window that follows the output shows its last lines, as many as fit.
pub proof fn law_window_follows(state: InstallState, height: int)
    requires
        0 <= height,
        state.end_line is None,
    ensures
        state.can_show(height),
        state.window_end() == state.lines@.len(),
        state.window(height).len() == if state.lines@.len() < height {
            state.lines@.len() as int
        } else {
            height
        },
{
}

impl RecentLogs {
    /// The text that is shown for a server.
    pub fn render(&self) -> (text: String)
        ensures
            text@ == join_text(texts(self.log_vec@), "\n"@),
    {
        let mut lines: Vec<String> = Vec::new();
        let mut i: usize = 0;
        while i < self.log_vec.len()
            invariant
                i <= self.log_vec@.len(),
                lines@ == self.log_vec@.take(i as int),
            decreases self.log_vec.len() - i,
        {
            lines.push(self.log_vec[i].clone());
            i = i + 1;
            assert(self.log_vec@.take(i as int) =~= self.log_vec@.take(i - 1).push(
                self.log_vec@[i - 1],
            ));
        }
        assert(self.log_vec@.take(i as int) =~= self.log_vec@);
        join(&lines, "\n")
    }
}

impl Default for RecentLogs {
    fn default() -> (logs: Self)
        ensures
            logs.log_vec@.len() == 0,
    {
        RecentLogs { log_vec: VecDeque::with_capacity(10) }
    }
}

/// The widths of the columns that the servers are shown in, as shares of the whole: all the same.
pub fn render_logs_frame(num_servers: u16) -> (columns: Vec<(u32, u32)>)
    ensures
        columns@.len() == num_servers,
        forall|i: int|
            0 <= i < columns@.len() ==> (#[trigger] columns@[i]) == (1u32, num_servers as u32),
{
    let mut columns: Vec<(u32, u32)> = Vec::new();
    let mut i: u16 = 0;
    while i < num_servers
        invariant
            i <= num_servers,
            columns@.len() == i,
            forall|j: int| 0 <= j < i ==> (#[trigger] columns@[j]) == (1u32, num_servers as u32),
        decreases num_servers - i,
    {
        columns.push((1, num_servers as u32));
        i = i + 1;
    }
    columns
}

impl LocalAppState {
    /// The servers that are shown are in order.
    pub open spec fn wf(self) -> bool {
        self.kind matches LocalAppStateKind::InProgress(servers) ==> servers.wf()
    }

    /// The state at the start.
    pub fn new(num_servers: u16) -> (state: Self)
        ensures
            state.wf(),
            state == (LocalAppState {
                num_servers,
                cancelled: false,
                exit: false,
                kind: LocalAppStateKind::Start,
            }),
    {
        LocalAppState { num_servers, cancelled: false, exit: false, kind: LocalAppStateKind::Start }
    }

    /// This state with the window of an installation moved.
    pub open spec fn with_end_line(self, end_line: Option<usize>) -> Self {
        match self.kind {
            LocalAppStateKind::Install(install) => LocalAppState {
                kind: LocalAppStateKind::Install(InstallState { end_line, ..install }),
                ..self
            },
            _ => self,
        }
    }

    /// Whether an installation is shown that is over.
    pub open spec fn installed(self) -> bool {
        self.kind matches LocalAppStateKind::Install(install) && install.complete
    }

    /// Whether the window of an installation can be moved down.
    pub open spec fn can_scroll_down(self) -> bool {
        self.kind matches LocalAppStateKind::Install(install) ==> install.end_line
            != Some(usize::MAX)
    }

    /// This state on its way out.
    pub open spec fn exiting(self) -> Self {
        LocalAppState { exit: true, cancelled: true, ..self }
    }

    /// Ends the application and what runs in the background.
    pub fn start_exit(&mut self)
        ensures
            *final(self) == old(self).exiting(),
            old(self).wf() ==> final(self).wf(),
    {
        self.exit = true;
        self.cancelled = true;
    }

    /// Moves the window of an installation up by a line.
    pub fn decrease_scroll(&mut self)
        ensures
            *final(self) == match old(self).kind {
                LocalAppStateKind::Install(install) => old(self).with_end_line(
                    install.scrolled_up(),
                ),
                _ => *old(self),
            },
            old(self).wf() ==> final(self).wf(),
    {
        match &mut self.kind {
            LocalAppStateKind::Install(install_app_state) => {
                let new_end_line: usize = match install_app_state.end_line {
                    Some(val) => if val != 0 {
                        val - 1
                    } else {
                        val
                    },
                    None => install_app_state.lines.len(),
                };
                install_app_state.end_line = Some(new_end_line);
            },
            _ => {},
        }
    }

    /// Moves the window of an installation down by a line.
    pub fn increase_scroll(&mut self)
        requires
            old(self).can_scroll_down(),
        ensures
            *final(self) == match old(self).kind {
                LocalAppStateKind::Install(install) => old(self).with_end_line(
                    install.scrolled_down(),
                ),
                _ => *old(self),
            },
            old(self).wf() ==> final(self).wf(),
    {
        match &mut self.kind {
            LocalAppStateKind::Install(install_app_state) => {
                let new_end_line: usize = match install_app_state.end_line {
                    Some(val) => if val != 0 {
                        val + 1
                    } else {
                        val
                    },
                    None => install_app_state.lines.len(),
                };
                install_app_state.end_line = Some(new_end_line);
            },
            _ => {},
        }
    }

    /// The message that starts the servers, once an installation is over.
    pub fn try_continue<P>(&self) -> (message: Option<LocalAppMessage<P>>)
        ensures
            message == if self.installed() {
                Some(LocalAppMessage::<P>::StartServers)
            } else {
                None
            },
    {
        match &self.kind {
            LocalAppStateKind::Install(install_app_state) => {
                if install_app_state.complete {
                    Some(LocalAppMessage::StartServers)
                } else {
                    None
                }
            },
            _ => None,
        }
    }

    /// Stops with an error, once an installation is over.
    pub fn try_stop(&self) -> (result: Result<(), NoBacktraceError>)
        ensures
            match result {
                Ok(()) => !self.installed(),
                Err(error) => self.installed() && error.msg@ == "user requested to stop"@,
            },
    {
        match &self.kind {
            LocalAppStateKind::Install(install_app_state) => {
                if install_app_state.complete {
                    return Err(NoBacktraceError::msg("user requested to stop".to_owned()));
                }
            },
            _ => {},
        }
        Ok(())
    }

    /// Does what a key stands for, and returns the message that it leads to.
    pub fn handle_key_event<P>(&mut self, code: char) -> (result: Result<
        Option<LocalAppMessage<P>>,
        NoBacktraceError,
    >)
        requires
            code == 'j' ==> old(self).can_scroll_down(),
        ensures
            old(self).wf() ==> final(self).wf(),
            *final(self) == match code {
                'q' => old(self).exiting(),
                'k' => match old(self).kind {
                    LocalAppStateKind::Install(install) => old(self).with_end_line(
                        install.scrolled_up(),
                    ),
                    _ => *old(self),
                },
                'j' => match old(self).kind {
                    LocalAppStateKind::Install(install) => old(self).with_end_line(
                        install.scrolled_down(),
                    ),
                    _ => *old(self),
                },
                _ => *old(self),
            },
            match result {
                Ok(message) => {
                    &&& !(code == 'n' && old(self).installed())
                    &&& message == if code == 'y' && old(self).installed() {
                        Some(LocalAppMessage::<P>::StartServers)
                    } else {
                        None
                    }
                },
                Err(error) => {
                    &&& code == 'n'
                    &&& old(self).installed()
                    &&& error.msg@ == "user requested to stop"@
                },
            },
    {
        match code {
            'q' => {
                self.start_exit();
                Ok(None)
            },
            'k' => {
                self.decrease_scroll();
                Ok(None)
            },
            'j' => {
                self.increase_scroll();
                Ok(None)
            },
            'y' => Ok(self.try_continue()),
            'n' => match self.try_stop() {
                Ok(()) => Ok(None),
                Err(error) => Err(error),
            },
            _ => Ok(None),
        }
    }

    /// Takes a message. The result may be a path to install from; the error is its text.
    ///
    /// Servers are not started or shown yet.
    pub fn handle_message<P>(&mut self, message: LocalAppMessage<P>) -> (result: Result<
        Option<P>,
        String,
    >)
        requires
            !(message is StartServers),
            !(message is ServerLog),
        ensures
            old(self).wf() ==> final(self).wf(),
            final(self).num_servers == old(self).num_servers,
            final(self).exit == old(self).exit,
            final(self).cancelled == old(self).cancelled,
            result is Err ==> *final(self) == *old(self),
            match message {
                LocalAppMessage::StartInstall(start) => match result {
                    Ok(path) => {
                        &&& old(self).kind is Start
                        &&& path == Some(start.path)
                        &&& final(self).kind matches LocalAppStateKind::Install(install)
                        &&& !install.complete
                        &&& install.end_line is None
                        &&& install.lines@.len() == 0
                    },
                    Err(text) => {
                        &&& !(old(self).kind is Start)
                        &&& text@ == "local deploy did not initialize properly"@
                    },
                },
                LocalAppMessage::Install(added) => match result {
                    Ok(path) => {
                        &&& old(self).kind matches LocalAppStateKind::Install(before)
                        &&& final(self).kind matches LocalAppStateKind::Install(after)
                        &&& path is None
                        &&& after.complete == before.complete
                        &&& after.end_line == before.end_line
                        &&& after.lines@ == before.lines@ + added.lines@
                    },
                    Err(text) => {
                        &&& !(old(self).kind is Install)
                        &&& text@ == "install did not complete properly"@
                    },
                },
                LocalAppMessage::InstallComplete => match result {
                    Ok(path) => {
                        &&& old(self).kind matches LocalAppStateKind::Install(before)
                        &&& path is None
                        &&& final(self).kind == LocalAppStateKind::Install(
                            InstallState { complete: true, ..before },
                        )
                    },
                    Err(text) => {
                        &&& !(old(self).kind is Install)
                        &&& text@ == "install did not complete properly"@
                    },
                },
                _ => true,
            },
    {
        match message {
            LocalAppMessage::StartInstall(start_install_message) => match &self.kind {
                LocalAppStateKind::Start => {
                    self.kind = LocalAppStateKind::Install(
                        InstallState { complete: false, lines: Vec::new(), end_line: None },
                    );
                    Ok(Some(start_install_message.path))
                },
                _ => Err("local deploy did not initialize properly".to_owned()),
            },
            LocalAppMessage::Install(install_message) => match &mut self.kind {
                LocalAppStateKind::Install(install_state) => {
                    let mut lines = install_message.lines;
                    install_state.lines.append(&mut lines);
                    Ok(None)
                },
                _ => Err("install did not complete properly".to_owned()),
            },
            LocalAppMessage::InstallComplete => match &mut self.kind {
                LocalAppStateKind::Install(install_state) => {
                    install_state.complete = true;
                    Ok(None)
                },
                _ => Err("install did not complete properly".to_owned()),
            },
            _ => Ok(None),
        }
    }
}

/// Scrolling up moves the window by one line, but not above the first. From the end of the output it
/// first only stops following it.
pub proof fn law_scrolling_up_moves_by_a_line(install: InstallState)
    requires
        install.lines@.len() <= usize::MAX,
    ensures
        install.scrolled_up() is Some,
        install.end_line is None ==> install.scrolled_up()->0 == install.lines@.len(),
        install.end_line is Some && install.end_line->0 > 0 ==> install.scrolled_up()->0 + 1
            == install.end_line->0,
        install.end_line == Some(0usize) ==> install.scrolled_up()->0 == 0,
{
}

/// Scrolling down moves the window by one line, but not where it stands in front of the first line. From
/// the end of the output it only stops following it.
pub proof fn law_scrolling_down_moves_by_a_line(install: InstallState)
    requires
        install.lines@.len() <= usize::MAX,
        install.end_line != Some(usize::MAX),
    ensures
        install.scrolled_down() is Some,
        install.end_line is None ==> install.scrolled_down()->0 == install.lines@.len(),
        install.end_line is Some && install.end_line->0 > 0 ==> install.scrolled_down()->0
            == install.end_line->0 + 1,
        install.end_line == Some(0usize) ==> install.scrolled_down()->0 == 0,
{
}

/// Scrolling down takes back what scrolling up has done, unless that has reached the top.
pub proof fn law_scrolling_back(install: InstallState)
    requires
        install.end_line is Some,
        install.end_line->0 > 1,
    ensures
        (InstallState { end_line: install.scrolled_up(), ..install }).scrolled_down()
            == install.end_line,
{
}

/// A window shows the lines right in front of its end, as many as fit, and no others. Its end is where
/// the user has scrolled to, or the end of the output.
pub proof fn law_windows_show_what_is_in_front_of_their_end(
    install: InstallState,
    height: int,
    i: int,
)
    requires
        0 <= height,
        install.can_show(height),
    ensures
        ({
            let end = if install.end_line is Some {
                install.end_line->0 as int
            } else {
                install.lines@.len() as int
            };
            let shown = install.window(height);
            let skipped = if end > height {
                end - height
            } else {
                0
            };
            &&& 0 <= i < shown.len() <==> 0 <= i && skipped + i < end && skipped + i
                < install.lines@.len()
            &&& 0 <= i < shown.len() ==> shown[i] == install.lines@[skipped + i]@
        }),
{
}

/// A window can be shown exactly if the user has not scrolled more than its height past the output.
pub proof fn law_windows_can_be_shown_near_the_output(install: InstallState, height: int)
    requires
        0 <= height,
    ensures
        install.end_line is None ==> install.can_show(height),
        install.end_line is Some ==> (install.can_show(height) <==> install.end_line->0
            <= install.lines@.len() + height),
{
}

/// Moving the window of an installation changes nothing else, and where no installation is shown it
/// changes nothing at all.
pub proof fn law_scrolling_only_moves_the_window(state: LocalAppState, end_line: Option<usize>)
    ensures
        ({
            let moved = state.with_end_line(end_line);
            &&& moved.num_servers == state.num_servers
            &&& moved.cancelled == state.cancelled
            &&& moved.exit == state.exit
            &&& moved.kind is Install <==> state.kind is Install
            &&& state.kind is Install ==> {
                &&& moved.kind->Install_0.end_line == end_line
                &&& moved.kind->Install_0.lines == state.kind->Install_0.lines
                &&& moved.kind->Install_0.complete == state.kind->Install_0.complete
            }
            &&& !(state.kind is Install) ==> moved == state
        }),
{
}

/// An application on its way out closes the terminal and stops what runs in the background. It shows
/// what it showed before.
pub proof fn law_exiting_stops_everything(state: LocalAppState)
    ensures
        state.exiting().exit,
        state.exiting().cancelled,
        state.exiting().num_servers == state.num_servers,
        state.exiting().kind == state.kind,
{
}

/// The user can go on or stop exactly while an installation is shown that is over, and can scroll down
/// unless the window of one is at the last index that there is.
pub proof fn law_users_decide_after_the_installation(state: LocalAppState)
    ensures
        state.installed() <==> state.kind is Install && state.kind->Install_0.complete,
        state.can_scroll_down() <==> !(state.kind is Install && state.kind->Install_0.end_line
            == Some(usize::MAX)),
{
}

/// Of two different texts one comes before the other, and not the other way round.
pub proof fn law_texts_are_in_order(first: Seq<char>, second: Seq<char>)
    requires
        first != second,
    ensures
        comes_before(first, second) <==> !comes_before(second, first),
    decreases first.len(),
{
    if first.len() == 0 && second.len() == 0 {
        assert(first =~= second);
    } else if first.len() > 0 && second.len() > 0 && first[0] == second[0] {
        if first.skip(1) == second.skip(1) {
            assert(first =~= seq![first[0]] + first.skip(1));
            assert(second =~= seq![second[0]] + second.skip(1));
        } else {
            law_texts_are_in_order(first.skip(1), second.skip(1));
        }
    }
}

/// The first character in which two texts differ decides which comes before the other, and a text
/// comes before what continues it.
pub proof fn law_the_first_difference_decides(
    common: Seq<char>,
    first: Seq<char>,
    second: Seq<char>,
)
    requires
        second.len() > 0,
        first.len() > 0 ==> first[0] != second[0],
    ensures
        comes_before(common + first, common + second) <==> first.len() == 0 || first[0]
            < second[0],
    decreases common.len(),
{
    if common.len() == 0 {
        assert(common + first =~= first);
        assert(common + second =~= second);
    } else {
        law_the_first_difference_decides(common.skip(1), first, second);
        assert((common + first).skip(1) =~= common.skip(1) + first);
        assert((common + second).skip(1) =~= common.skip(1) + second);
    }
}

} // verus!
