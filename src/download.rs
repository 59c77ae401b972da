//! One download's lifecycle: the downloader's arguments, and the supervisor
//! that turns the process's events into progress events and one outcome.
use vstd::prelude::*;
use crate::progress::{
    classify_line, playlist_of, progress_of, title_of, LineUpdate, PlaylistPosition,
};
use crate::text::{push_signed_decimal, signed_decimal, str_eq};

verus! {

pub open spec fn is_audio_request(quality: Seq<char>, format: Seq<char>) -> bool {
    quality == "audio"@ || format == "mp3"@ || format == "m4a"@ || format == "opus"@
}

/// The video height ceiling of a quality tier, if it has one.
pub open spec fn height_ceiling(quality: Seq<char>) -> Option<Seq<char>> {
    if quality == "4k"@ {
        Some("2160"@)
    } else if quality == "2k"@ {
        Some("1440"@)
    } else if quality == "1080"@ || quality == "720"@ || quality == "480"@ || quality == "360"@ {
        Some(quality)
    } else {
        None
    }
}

/// The format-selection expression for a quality tier and a container.
pub open spec fn format_selection(quality: Seq<char>, format: Seq<char>) -> Seq<char> {
    if is_audio_request(quality, format) {
        if format == "mp3"@ {
            "bestaudio/best"@
        } else if format == "opus"@ {
            "bestaudio[ext=webm]/bestaudio/best"@
        } else {
            "bestaudio[ext=m4a]/bestaudio/best"@
        }
    } else {
        match height_ceiling(quality) {
            Some(h) => if format == "mp4"@ {
                "bestvideo[height<="@ + h + "][ext=mp4]+bestaudio[ext=m4a]/bestvideo[height<="@ + h
                    + "]+bestaudio/best[height<="@ + h + "]/best"@
            } else {
                "bestvideo[height<="@ + h + "]+bestaudio/best[height<="@ + h + "]/best"@
            },
            None => if format == "mp4"@ {
                "bestvideo[ext=mp4]+bestaudio[ext=m4a]/bestvideo+bestaudio/best"@
            } else {
                "bestvideo+bestaudio/best"@
            },
        }
    }
}

fn height_ceiling_exec(quality: &str) -> (r: Option<&'static str>)
    ensures
        match height_ceiling(quality@) {
            Some(h) => r is Some && (r->0)@ == h,
            None => r is None,
        },
{
    if str_eq(quality, "4k") {
        Some("2160")
    } else if str_eq(quality, "2k") {
        Some("1440")
    } else if str_eq(quality, "1080") {
        Some("1080")
    } else if str_eq(quality, "720") {
        Some("720")
    } else if str_eq(quality, "480") {
        Some("480")
    } else if str_eq(quality, "360") {
        Some("360")
    } else {
        None
    }
}

fn is_audio_request_exec(quality: &str, format: &str) -> (r: bool)
    ensures
        r == is_audio_request(quality@, format@),
{
    str_eq(quality, "audio") || str_eq(format, "mp3") || str_eq(format, "m4a") || str_eq(
        format,
        "opus",
    )
}

/// The format-selection expression: best audio for an audio request; else
/// video under the tier's height ceiling with audio, mp4 with m4a first
/// when the container is mp4, then any stream under the ceiling, then the
/// best there is.
pub fn build_format_string(quality: &str, format: &str) -> (r: String)
    ensures
        r@ == format_selection(quality@, format@),
{
    if is_audio_request_exec(quality, format) {
        return if str_eq(format, "mp3") {
            String::from_str("bestaudio/best")
        } else if str_eq(format, "opus") {
            String::from_str("bestaudio[ext=webm]/bestaudio/best")
        } else {
            String::from_str("bestaudio[ext=m4a]/bestaudio/best")
        };
    }
    let mp4 = str_eq(format, "mp4");
    match height_ceiling_exec(quality) {
        Some(h) => {
            let mut s = String::from_str("bestvideo[height<=");
            s.append(h);
            if mp4 {
                s.append("][ext=mp4]+bestaudio[ext=m4a]/bestvideo[height<=");
                s.append(h);
            }
            s.append("]+bestaudio/best[height<=");
            s.append(h);
            s.append("]/best");
            assert(s@ =~= format_selection(quality@, format@));
            s
        },
        None => if mp4 {
            String::from_str("bestvideo[ext=mp4]+bestaudio[ext=m4a]/bestvideo+bestaudio/best")
        } else {
            String::from_str("bestvideo+bestaudio/best")
        },
    }
}

/// The container that audio is extracted to.
pub open spec fn audio_container(format: Seq<char>) -> Seq<char> {
    if format == "mp3"@ || format == "m4a"@ || format == "opus"@ {
        format
    } else {
        "mp3"@
    }
}

/// The downloader's arguments for a download request.
pub open spec fn download_arguments(
    url: Seq<char>,
    output_path: Seq<char>,
    quality: Seq<char>,
    format: Seq<char>,
    download_playlist: bool,
) -> Seq<Seq<char>> {
    let head = seq![
        "--newline"@,
        "-f"@,
        format_selection(quality, format),
        "-o"@,
        output_path + "/%(title)s.%(ext)s"@,
    ];
    let playlist = if download_playlist {
        Seq::empty()
    } else {
        seq!["--no-playlist"@]
    };
    let media = if is_audio_request(quality, format) {
        seq!["-x"@, "--audio-format"@, audio_container(format), "--audio-quality"@, "0"@]
    } else {
        seq!["--merge-output-format"@, format]
    };
    head + playlist + media + seq![url]
}

pub open spec fn texts(v: Seq<String>) -> Seq<Seq<char>> {
    v.map_values(|s: String| s@)
}

/// What a caller asks to download.
#[derive(Clone, Debug)]
pub struct DownloadRequest {
    /// Correlation id carried by every progress event of this download.
    pub id: String,
    pub url: String,
    /// Directory the file is written to.
    pub output_path: String,
    /// `audio`, `360`, `480`, `720`, `1080`, `2k` or `4k`.
    pub quality: String,
    /// Container, such as `mp4`, `mkv`, `mp3`, `m4a` or `opus`.
    pub format: String,
    pub download_playlist: bool,
}

impl DownloadRequest {
    /// The downloader's arguments: line-by-line progress, the format
    /// selection, the output template; a single item unless the playlist is
    /// asked for; audio extraction at best quality for an audio request, a
    /// merge container otherwise; the locator last.
    pub fn arguments(&self) -> (r: Vec<String>)
        ensures
            texts(r@) == download_arguments(
                self.url@,
                self.output_path@,
                self.quality@,
                self.format@,
                self.download_playlist,
            ),
    {
        let quality = self.quality.as_str();
        let format = self.format.as_str();
        let mut args: Vec<String> = Vec::new();
        args.push(String::from_str("--newline"));
        args.push(String::from_str("-f"));
        args.push(build_format_string(quality, format));
        args.push(String::from_str("-o"));
        let mut template = String::from_str(self.output_path.as_str());
        template.append("/%(title)s.%(ext)s");
        args.push(template);
        if !self.download_playlist {
            args.push(String::from_str("--no-playlist"));
        }
        if is_audio_request_exec(quality, format) {
            args.push(String::from_str("-x"));
            args.push(String::from_str("--audio-format"));
            if str_eq(format, "mp3") || str_eq(format, "m4a") || str_eq(format, "opus") {
                args.push(String::from_str(format));
            } else {
                args.push(String::from_str("mp3"));
            }
            args.push(String::from_str("--audio-quality"));
            args.push(String::from_str("0"));
        } else {
            args.push(String::from_str("--merge-output-format"));
            args.push(String::from_str(format));
        }
        args.push(String::from_str(self.url.as_str()));
        assert(texts(args@) =~= download_arguments(
            self.url@,
            self.output_path@,
            self.quality@,
            self.format@,
            self.download_playlist,
        ));
        args
    }
}

/// The lifecycle status that a progress event reports.
#[derive(Clone, Copy, Debug, PartialEq, Eq, Structural)]
pub enum DownloadStatus {
    Downloading,
    Finished,
    Cancelled,
    Failed,
}

impl DownloadStatus {
    pub fn as_str(&self) -> (r: &'static str)
        ensures
            r@ == match *self {
                DownloadStatus::Downloading => "downloading"@,
                DownloadStatus::Finished => "finished"@,
                DownloadStatus::Cancelled => "cancelled"@,
                DownloadStatus::Failed => "failed"@,
            },
    {
        match self {
            DownloadStatus::Downloading => "downloading",
            DownloadStatus::Finished => "finished",
            DownloadStatus::Cancelled => "cancelled",
            DownloadStatus::Failed => "failed",
        }
    }
}

/// A progress event for the caller; percent is in millionths of a percent.
#[derive(Clone, Debug)]
pub struct DownloadProgressEvent {
    pub id: String,
    pub percent_micros: u64,
    pub speed: String,
    pub eta: String,
    pub status: DownloadStatus,
    pub title: Option<String>,
    pub playlist_index: Option<u32>,
    pub playlist_count: Option<u32>,
}

/// What the running downloader reports.
#[derive(Clone, Debug)]
pub enum ProcessEvent {
    /// One line of standard output.
    Line(String),
    /// The process could not be run or broke down.
    ProcessError(String),
    /// The process ended, with its exit code where it has one.
    Terminated(Option<i32>),
}

/// How a download can end without success.
#[derive(Clone, Debug)]
pub enum DownloadError {
    /// No downloader could be found; the detail says what was tried.
    ToolNotFound(String),
    ProcessError(String),
    Cancelled,
    /// The downloader exited without success, with its exit code if any.
    DownloadFailed(Option<i32>),
}

pub open spec fn download_error_message(e: DownloadError) -> Seq<char> {
    match e {
        DownloadError::ToolNotFound(d) => "Failed to start yt-dlp: "@ + d@
            + ". Please install yt-dlp: brew install yt-dlp"@,
        DownloadError::ProcessError(m) => "Process error: "@ + m@,
        DownloadError::Cancelled => "Download cancelled"@,
        DownloadError::DownloadFailed(code) => match code {
            Some(c) => "Download failed (exit code "@ + signed_decimal(c as int) + ")"@,
            None => "Download failed"@,
        },
    }
}

impl DownloadError {
    /// The message shown for this outcome.
    pub fn message(&self) -> (r: String)
        ensures
            r@ == download_error_message(*self),
    {
        match self {
            DownloadError::ToolNotFound(d) => {
                let mut s = String::from_str("Failed to start yt-dlp: ");
                s.append(d.as_str());
                s.append(". Please install yt-dlp: brew install yt-dlp");
                s
            },
            DownloadError::ProcessError(m) => {
                let mut s = String::from_str("Process error: ");
                s.append(m.as_str());
                s
            },
            DownloadError::Cancelled => String::from_str("Download cancelled"),
            DownloadError::DownloadFailed(code) => match code {
                Some(c) => {
                    let mut s = String::from_str("Download failed (exit code ");
                    push_signed_decimal(&mut s, *c as i64);
                    s.append(")");
                    s
                },
                None => String::from_str("Download failed"),
            },
        }
    }
}

/// The phases of one download.
#[derive(Clone, Copy, Debug, PartialEq, Eq, Structural)]
pub enum Phase {
    Idle,
    Starting,
    Running,
    Finished,
    Failed,
    Cancelled,
}

pub open spec fn is_active(p: Phase) -> bool {
    p == Phase::Starting || p == Phase::Running
}

pub open spec fn is_terminal(p: Phase) -> bool {
    p == Phase::Finished || p == Phase::Failed || p == Phase::Cancelled
}

/// What the caller does after an event.
#[derive(Clone, Debug)]
pub enum SupervisorAction {
    /// Nothing to report.
    Continue,
    /// Deliver a `downloading` event.
    Emit(DownloadProgressEvent),
    /// Deliver the `finished` event: the download succeeded.
    Finish(DownloadProgressEvent),
    /// Terminate the process, kill its helpers, wait the grace interval,
    /// kill the helpers again, then deliver the `cancelled` event.
    Cancel(DownloadProgressEvent),
    /// Deliver the `failed` event and report the error.
    Fail(DownloadError, DownloadProgressEvent),
}

/// The status that an action delivers, if it delivers an event.
pub open spec fn delivered(a: SupervisorAction) -> Option<DownloadStatus> {
    match a {
        SupervisorAction::Continue => None,
        SupervisorAction::Emit(e) => Some(e.status),
        SupervisorAction::Finish(e) => Some(e.status),
        SupervisorAction::Cancel(e) => Some(e.status),
        SupervisorAction::Fail(_, e) => Some(e.status),
    }
}

/// The state of a supervisor as the contracts see it.
pub struct SupervisorView {
    pub id: Seq<char>,
    pub phase: Phase,
    pub percent_micros: nat,
    pub speed: Seq<char>,
    pub eta: Seq<char>,
    pub title: Option<Seq<char>>,
    pub playlist_index: Option<u32>,
    pub playlist_count: Option<u32>,
}

/// The percent of a finished download, in millionths.
pub const FULL_PERCENT_MICROS: u64 = 100_000_000;

/// The grace interval between terminating a cancelled download and killing
/// its helpers a second time, in milliseconds.
pub const GRACE_INTERVAL_MS: u64 = 500;

pub open spec fn sticky<T>(new: Option<T>, old: Option<T>) -> Option<T> {
    match new {
        Some(x) => Some(x),
        None => old,
    }
}

/// The percent after a line. Within one playlist item it never goes down:
/// a smaller value than the one known is not taken. A new playlist item
/// starts again from the line's value, or from 0 where the line gives none.
pub open spec fn next_percent(old: nat, new_item: bool, pr: Option<(nat, Seq<char>, Seq<char>)>) -> nat {
    match pr {
        Some(p) => if new_item || p.0 > old {
            p.0
        } else {
            old
        },
        None => if new_item {
            0
        } else {
            old
        },
    }
}

/// The state after one line: what the line states replaces what was
/// known, the rest stays; the percent follows `next_percent`.
pub open spec fn after_line(s: SupervisorView, line: Seq<char>) -> SupervisorView {
    let pl = playlist_of(line);
    let pr = progress_of(line);
    let index = match pl {
        Some(q) => sticky(q.0, s.playlist_index),
        None => s.playlist_index,
    };
    SupervisorView {
        phase: Phase::Running,
        percent_micros: next_percent(s.percent_micros, index != s.playlist_index, pr),
        speed: match pr {
            Some(p) => p.1,
            None => s.speed,
        },
        eta: match pr {
            Some(p) => p.2,
            None => s.eta,
        },
        title: sticky(title_of(line), s.title),
        playlist_index: index,
        playlist_count: match pl {
            Some(q) => sticky(q.1, s.playlist_count),
            None => s.playlist_count,
        },
        ..s
    }
}

/// Whether a line states anything.
pub open spec fn line_has_data(line: Seq<char>) -> bool {
    playlist_of(line) is Some || progress_of(line) is Some || title_of(line) is Some
}

/// One step of the supervisor: its next state and the status it delivers.
/// The cancellation signal is looked at first, on every event.
pub open spec fn step(s: SupervisorView, e: ProcessEvent, cancelled: bool) -> (
    SupervisorView,
    Option<DownloadStatus>,
) {
    if !is_active(s.phase) {
        (s, None)
    } else if cancelled {
        (SupervisorView { phase: Phase::Cancelled, ..s }, Some(DownloadStatus::Cancelled))
    } else {
        match e {
            ProcessEvent::Line(l) => if line_has_data(l@) {
                (after_line(s, l@), Some(DownloadStatus::Downloading))
            } else {
                (SupervisorView { phase: Phase::Running, ..s }, None)
            },
            ProcessEvent::ProcessError(_) => (
                SupervisorView { phase: Phase::Failed, ..s },
                Some(DownloadStatus::Failed),
            ),
            ProcessEvent::Terminated(code) => if code == Some(0i32) {
                (
                    SupervisorView {
                        phase: Phase::Finished,
                        percent_micros: FULL_PERCENT_MICROS as nat,
                        speed: Seq::empty(),
                        eta: Seq::empty(),
                        ..s
                    },
                    Some(DownloadStatus::Finished),
                )
            } else {
                (SupervisorView { phase: Phase::Failed, ..s }, Some(DownloadStatus::Failed))
            },
        }
    }
}

/// The state after a run of events, each with the cancellation signal as
/// observed with it, and the status delivered at each event.
pub open spec fn run(s: SupervisorView, evs: Seq<(ProcessEvent, bool)>) -> (
    SupervisorView,
    Seq<Option<DownloadStatus>>,
)
    decreases evs.len(),
{
    if evs.len() == 0 {
        (s, Seq::empty())
    } else {
        let (s1, d) = step(s, evs[0].0, evs[0].1);
        let (s2, ds) = run(s1, evs.drop_first());
        (s2, seq![d] + ds)
    }
}

/// After the end of a download, events change nothing and deliver nothing.
pub proof fn lemma_ended_stays_ended(s: SupervisorView, evs: Seq<(ProcessEvent, bool)>)
    requires
        is_terminal(s.phase),
    ensures
        run(s, evs).0 == s,
        run(s, evs).1.len() == evs.len(),
        forall|k: int| 0 <= k < evs.len() ==> (#[trigger] run(s, evs).1[k]) is None,
    decreases evs.len(),
{
    if evs.len() > 0 {
        lemma_ended_stays_ended(s, evs.drop_first());
        let ds = run(s, evs).1;
        assert forall|k: int| 0 <= k < evs.len() implies (#[trigger] run(s, evs).1[k]) is None by {
            if k > 0 {
                assert(ds[k] == run(s, evs.drop_first()).1[k - 1]);
            }
        }
    }
}

/// Cancellation: once an active download observes the signal, whatever
/// the event, it is cancelled at that event and delivers the `cancelled`
/// status; afterwards it stays cancelled and delivers nothing more, so no
/// `downloading` event follows the `cancelled` one.
pub proof fn lemma_cancellation_is_final(
    s: SupervisorView,
    e: ProcessEvent,
    later: Seq<(ProcessEvent, bool)>,
)
    requires
        is_active(s.phase),
    ensures
        step(s, e, true).0.phase == Phase::Cancelled,
        step(s, e, true).1 == Some(DownloadStatus::Cancelled),
        run(step(s, e, true).0, later).0.phase == Phase::Cancelled,
        forall|k: int|
            0 <= k < later.len() ==> (#[trigger] run(step(s, e, true).0, later).1[k]) is None,
{
    lemma_ended_stays_ended(step(s, e, true).0, later);
}

/// Within one playlist item the percent never goes down: a step that keeps
/// the playlist index keeps or raises the percent, so consecutive events of
/// one item report non-decreasing percents.
pub proof fn lemma_percent_monotonic_in_item(s: SupervisorView, e: ProcessEvent, cancelled: bool)
    requires
        s.percent_micros <= FULL_PERCENT_MICROS,
    ensures
        step(s, e, cancelled).0.playlist_index == s.playlist_index ==> step(
            s,
            e,
            cancelled,
        ).0.percent_micros >= s.percent_micros,
{
}

/// The outcome of an exit: with the cancellation signal set it is a
/// cancellation, whatever the exit code; without it, exit code 0 finishes
/// and any other code, or none, fails.
pub proof fn lemma_exit_outcome(s: SupervisorView, code: Option<i32>)
    requires
        is_active(s.phase),
    ensures
        step(s, ProcessEvent::Terminated(code), true).0.phase == Phase::Cancelled,
        step(s, ProcessEvent::Terminated(code), false).0.phase == if code == Some(0i32) {
            Phase::Finished
        } else {
            Phase::Failed
        },
{
}

/// Supervises one download at a time: classifies the downloader's lines,
/// keeps the last known progress, and decides the outcome.
pub struct Supervisor {
    id: String,
    phase: Phase,
    percent_micros: u64,
    speed: String,
    eta: String,
    title: Option<String>,
    playlist_index: Option<u32>,
    playlist_count: Option<u32>,
}

pub open spec fn opt_view(o: Option<String>) -> Option<Seq<char>> {
    match o {
        Some(s) => Some(s@),
        None => None,
    }
}

impl View for Supervisor {
    type V = SupervisorView;

    closed spec fn view(&self) -> SupervisorView {
        SupervisorView {
            id: self.id@,
            phase: self.phase,
            percent_micros: self.percent_micros as nat,
            speed: self.speed@,
            eta: self.eta@,
            title: opt_view(self.title),
            playlist_index: self.playlist_index,
            playlist_count: self.playlist_count,
        }
    }
}

/// Whether an event reports state `s` with status `st`.
pub open spec fn reports(e: DownloadProgressEvent, s: SupervisorView, st: DownloadStatus) -> bool {
    &&& e.id@ == s.id
    &&& e.percent_micros as nat == s.percent_micros
    &&& e.speed@ == s.speed
    &&& e.eta@ == s.eta
    &&& e.status == st
    &&& opt_view(e.title) == s.title
    &&& e.playlist_index == s.playlist_index
    &&& e.playlist_count == s.playlist_count
}

fn clone_opt(o: &Option<String>) -> (r: Option<String>)
    ensures
        opt_view(r) == opt_view(*o),
{
    match o {
        Some(s) => Some(String::from_str(s.as_str())),
        None => None,
    }
}

impl Supervisor {
    /// The percent held never exceeds 100.
    pub closed spec fn wf(&self) -> bool {
        self.percent_micros <= FULL_PERCENT_MICROS
    }

    /// A supervisor for the download with correlation id `id`, not started.
    pub fn new(id: String) -> (r: Self)
        ensures
            r@.id == id@,
            r@.phase == Phase::Idle,
            r.wf(),
    {
        Supervisor {
            id,
            phase: Phase::Idle,
            percent_micros: 0,
            speed: String::new(),
            eta: String::new(),
            title: None,
            playlist_index: None,
            playlist_count: None,
        }
    }

    pub fn phase(&self) -> (r: Phase)
        ensures
            r == self@.phase,
    {
        self.phase
    }

    /// Starts a download: allowed only before the first one or after the
    /// previous one ended. Forgets all progress. The caller resets its
    /// cancellation signal at the same time.
    pub fn begin(&mut self)
        requires
            old(self)@.phase == Phase::Idle || is_terminal(old(self)@.phase),
        ensures
            final(self)@ == (SupervisorView {
                id: old(self)@.id,
                phase: Phase::Starting,
                percent_micros: 0,
                speed: Seq::empty(),
                eta: Seq::empty(),
                title: None,
                playlist_index: None,
                playlist_count: None,
            }),
            final(self).wf(),
    {
        self.phase = Phase::Starting;
        self.percent_micros = 0;
        self.speed = String::new();
        self.eta = String::new();
        self.title = None;
        self.playlist_index = None;
        self.playlist_count = None;
    }

    fn event(&self, status: DownloadStatus) -> (r: DownloadProgressEvent)
        ensures
            reports(r, self@, status),
    {
        DownloadProgressEvent {
            id: String::from_str(self.id.as_str()),
            percent_micros: self.percent_micros,
            speed: String::from_str(self.speed.as_str()),
            eta: String::from_str(self.eta.as_str()),
            status,
            title: clone_opt(&self.title),
            playlist_index: self.playlist_index,
            playlist_count: self.playlist_count,
        }
    }

    fn apply(&mut self, u: LineUpdate)
        requires
            old(self).wf(),
            u.progress is Some ==> (u.progress->0).percent_micros <= FULL_PERCENT_MICROS,
        ensures
            final(self).wf(),
            final(self).id == old(self).id,
            final(self).phase == old(self).phase,
            final(self).percent_micros as nat == next_percent(
                old(self).percent_micros as nat,
                final(self).playlist_index != old(self).playlist_index,
                match u.progress {
                    Some(p) => Some((p.percent_micros as nat, p.speed@, p.eta@)),
                    None => None,
                },
            ),
            final(self).speed@ == match u.progress {
                Some(p) => p.speed@,
                None => old(self).speed@,
            },
            final(self).eta@ == match u.progress {
                Some(p) => p.eta@,
                None => old(self).eta@,
            },
            opt_view(final(self).title) == sticky(opt_view(u.title), opt_view(old(self).title)),
            final(self).playlist_index == match u.playlist {
                Some(q) => sticky(q.index, old(self).playlist_index),
                None => old(self).playlist_index,
            },
            final(self).playlist_count == match u.playlist {
                Some(q) => sticky(q.count, old(self).playlist_count),
                None => old(self).playlist_count,
            },
    {
        let old_index = self.playlist_index;
        match u.playlist {
            Some(PlaylistPosition { index, count }) => {
                if index.is_some() {
                    self.playlist_index = index;
                }
                if count.is_some() {
                    self.playlist_count = count;
                }
            },
            None => {},
        }
        let new_item = self.playlist_index != old_index;
        match u.progress {
            Some(p) => {
                if new_item || p.percent_micros > self.percent_micros {
                    self.percent_micros = p.percent_micros;
                }
                self.speed = p.speed;
                self.eta = p.eta;
            },
            None => {
                if new_item {
                    self.percent_micros = 0;
                }
            },
        }
        match u.title {
            Some(t) => {
                self.title = Some(t);
            },
            None => {},
        }
    }

    /// Handles one event of the downloader, with the cancellation signal as
    /// last observed. A set signal ends an active download as cancelled,
    /// whatever the event; a line that states something gives a
    /// `downloading` event; exit code 0 finishes; an error or any other
    /// exit fails. After the end, events are ignored.
    pub fn on_event(&mut self, e: ProcessEvent, cancelled: bool) -> (r: SupervisorAction)
        requires
            old(self).wf(),
        ensures
            final(self).wf(),
            (final(self)@, delivered(r)) == step(old(self)@, e, cancelled),
            delivered(r) matches Some(st) ==> match r {
                SupervisorAction::Emit(ev) => reports(ev, final(self)@, st),
                SupervisorAction::Finish(ev) => reports(ev, final(self)@, st),
                SupervisorAction::Cancel(ev) => reports(ev, final(self)@, st),
                SupervisorAction::Fail(_, ev) => reports(ev, final(self)@, st),
                SupervisorAction::Continue => true,
            },
            match r {
                SupervisorAction::Continue => true,
                SupervisorAction::Emit(ev) => ev.status == DownloadStatus::Downloading,
                SupervisorAction::Finish(ev) => ev.status == DownloadStatus::Finished,
                SupervisorAction::Cancel(ev) => ev.status == DownloadStatus::Cancelled,
                SupervisorAction::Fail(_, ev) => ev.status == DownloadStatus::Failed,
            },
            r matches SupervisorAction::Fail(err, _) ==> match e {
                ProcessEvent::ProcessError(m) => err matches DownloadError::ProcessError(m2)
                    && m2@ == m@,
                ProcessEvent::Terminated(code) => err matches DownloadError::DownloadFailed(c2)
                    && c2 == code,
                ProcessEvent::Line(_) => false,
            },
    {
        if !(self.phase == Phase::Starting || self.phase == Phase::Running) {
            return SupervisorAction::Continue;
        }
        if cancelled {
            self.phase = Phase::Cancelled;
            return SupervisorAction::Cancel(self.event(DownloadStatus::Cancelled));
        }
        match e {
            ProcessEvent::Line(l) => {
                let u = classify_line(l.as_str());
                self.phase = Phase::Running;
                if u.has_data() {
                    self.apply(u);
                    proof {
                        assert(self@ == after_line(old(self)@, l@));
                    }
                    SupervisorAction::Emit(self.event(DownloadStatus::Downloading))
                } else {
                    SupervisorAction::Continue
                }
            },
            ProcessEvent::ProcessError(m) => {
                self.phase = Phase::Failed;
                SupervisorAction::Fail(
                    DownloadError::ProcessError(m),
                    self.event(DownloadStatus::Failed),
                )
            },
            ProcessEvent::Terminated(code) => {
                if code == Some(0i32) {
                    self.phase = Phase::Finished;
                    self.percent_micros = FULL_PERCENT_MICROS;
                    self.speed = String::new();
                    self.eta = String::new();
                    SupervisorAction::Finish(self.event(DownloadStatus::Finished))
                } else {
                    self.phase = Phase::Failed;
                    SupervisorAction::Fail(
                        DownloadError::DownloadFailed(code),
                        self.event(DownloadStatus::Failed),
                    )
                }
            },
        }
    }

    /// Ends an active download that could not be started or run, with the
    /// given error: a cancellation as cancelled, anything else as failed.
    pub fn abort(&mut self, err: DownloadError) -> (r: SupervisorAction)
        requires
            old(self).wf(),
        ensures
            final(self).wf(),
            !is_active(old(self)@.phase) ==> final(self)@ == old(self)@ && r is Continue,
            is_active(old(self)@.phase) ==> final(self)@ == (SupervisorView {
                phase: if err is Cancelled {
                    Phase::Cancelled
                } else {
                    Phase::Failed
                },
                ..old(self)@
            }) && match r {
                SupervisorAction::Cancel(ev) => err is Cancelled && reports(
                    ev,
                    final(self)@,
                    DownloadStatus::Cancelled,
                ),
                SupervisorAction::Fail(e2, ev) => !(err is Cancelled) && e2 == err && reports(
                    ev,
                    final(self)@,
                    DownloadStatus::Failed,
                ),
                _ => false,
            },
    {
        if !(self.phase == Phase::Starting || self.phase == Phase::Running) {
            return SupervisorAction::Continue;
        }
        match err {
            DownloadError::Cancelled => {
                self.phase = Phase::Cancelled;
                SupervisorAction::Cancel(self.event(DownloadStatus::Cancelled))
            },
            _ => {
                self.phase = Phase::Failed;
                SupervisorAction::Fail(err, self.event(DownloadStatus::Failed))
            },
        }
    }
}

} // verus!
