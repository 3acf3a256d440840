//! The download orchestrator's decisions: the downloader's arguments,
//! what its exit status means, and the state of each item's task.

use vstd::prelude::*;
use crate::ledger::Ledger;
use crate::text::{chars_of, opt_chars, string_of};
use crate::video_id::{get_video_id, video_id_of};

verus! {

/// The suffix of the output path template, after the output directory.
pub open spec fn template_suffix() -> Seq<char> {
    "/%(title)s.%(ext)s"@
}

/// Where the downloader reads and writes, fixed for a run.
pub struct DownloadConfig {
    pub archive_file: String,
    pub output_template: String,
    pub cookies_file: String,
    pub ffmpeg_location: String,
}

impl DownloadConfig {
    /// The configuration whose output template names files by title and
    /// extension inside `output_directory`.
    pub fn new(
        archive_file: String,
        output_directory: &str,
        cookies_file: String,
        ffmpeg_location: String,
    ) -> (r: DownloadConfig)
        ensures
            r.archive_file == archive_file,
            r.output_template@ == output_directory@ + template_suffix(),
            r.cookies_file == cookies_file,
            r.ffmpeg_location == ffmpeg_location,
    {
        let mut t = chars_of(output_directory);
        let mut suffix = chars_of("/%(title)s.%(ext)s");
        t.append(&mut suffix);
        DownloadConfig {
            archive_file,
            output_template: string_of(&t),
            cookies_file,
            ffmpeg_location,
        }
    }
}

/// The downloader's arguments for the item at `url`.
pub open spec fn args_spec(cfg: DownloadConfig, url: Seq<char>) -> Seq<Seq<char>> {
    seq![
        "--download-archive"@, cfg.archive_file@,
        "-f"@, "bestvideo[ext=mp4]+bestaudio[ext=m4a]/mp4"@,
        "--sleep-requests"@, "5"@,
        "--match-filters"@, "!is_live"@,
        "--ffmpeg-location"@, cfg.ffmpeg_location@,
        "--cookies"@, cfg.cookies_file@,
        "-o"@, cfg.output_template@,
        url,
    ]
}

pub open spec fn strings_of(v: Seq<String>) -> Seq<Seq<char>> {
    v.map_values(|s: String| s@)
}

/// The downloader's arguments for the item at `url`: the ledger file,
/// the format choice, a pause between requests, the filter against live
/// broadcasts, the encoder location, the cookies file and the output
/// template, then the URL.
pub fn download_args(cfg: &DownloadConfig, url: &str) -> (r: Vec<String>)
    ensures
        strings_of(r@) == args_spec(*cfg, url@),
{
    let mut r: Vec<String> = Vec::new();
    r.push("--download-archive".to_owned());
    r.push(cfg.archive_file.clone());
    r.push("-f".to_owned());
    r.push("bestvideo[ext=mp4]+bestaudio[ext=m4a]/mp4".to_owned());
    r.push("--sleep-requests".to_owned());
    r.push("5".to_owned());
    r.push("--match-filters".to_owned());
    r.push("!is_live".to_owned());
    r.push("--ffmpeg-location".to_owned());
    r.push(cfg.ffmpeg_location.clone());
    r.push("--cookies".to_owned());
    r.push(cfg.cookies_file.clone());
    r.push("-o".to_owned());
    r.push(cfg.output_template.clone());
    r.push(url.to_owned());
    assert(strings_of(r@) =~= args_spec(*cfg, url@));
    r
}

/// Whether an exit with this code is a success: a zero code. A process
/// ended by a signal has no code and did not succeed.
pub fn exit_succeeded(code: Option<i32>) -> (r: bool)
    ensures
        r == (code == Some(0i32)),
{
    match code {
        Some(c) => c == 0,
        None => false,
    }
}

/// Where one item's task stands.
#[derive(Clone, Copy, Debug, PartialEq, Eq, Structural)]
pub enum TaskState {
    Pending,
    Skipped,
    Running,
    Succeeded,
    Failed,
}

/// One candidate item, its identifier if it has one, and where it stands.
pub struct DownloadTask {
    pub url: String,
    pub id: Option<String>,
    pub state: TaskState,
}

impl DownloadTask {
    /// A pending task for the item at `url`.
    pub fn new(url: String) -> (r: DownloadTask)
        ensures
            r.url == url,
            opt_chars(r.id) == video_id_of(url@),
            r.state == TaskState::Pending,
    {
        let id = get_video_id(url.as_str());
        DownloadTask { url, id, state: TaskState::Pending }
    }

    /// Decides a pending task: skipped when its identifier is in the
    /// ledger, else running.
    pub fn start(&mut self, ledger: &Ledger)
        requires
            old(self).state == TaskState::Pending,
        ensures
            final(self).url == old(self).url,
            final(self).id == old(self).id,
            final(self).state == (if old(self).id matches Some(id) && ledger@.contains(id@) {
                TaskState::Skipped
            } else {
                TaskState::Running
            }),
    {
        let known = match &self.id {
            Some(id) => ledger.contains(id.as_str()),
            None => false,
        };
        self.state = if known {
            TaskState::Skipped
        } else {
            TaskState::Running
        };
    }

    /// The downloader's arguments for the item.
    pub fn args(&self, cfg: &DownloadConfig) -> (r: Vec<String>)
        ensures
            strings_of(r@) == args_spec(*cfg, self.url@),
    {
        download_args(cfg, self.url.as_str())
    }

    /// Ends a running task with the downloader's exit code. On success its
    /// identifier, if it has one, is recorded in the ledger; on failure the
    /// ledger is left as it was.
    pub fn finish(&mut self, code: Option<i32>, ledger: &mut Ledger)
        requires
            old(self).state == TaskState::Running,
            old(ledger).wf(),
        ensures
            final(ledger).wf(),
            final(self).url == old(self).url,
            final(self).id == old(self).id,
            final(self).state == (if code == Some(0i32) {
                TaskState::Succeeded
            } else {
                TaskState::Failed
            }),
            final(ledger)@ == (if code == Some(0i32) && old(self).id is Some {
                old(ledger)@.insert(old(self).id->0@)
            } else {
                old(ledger)@
            }),
    {
        if exit_succeeded(code) {
            self.state = TaskState::Succeeded;
            match &self.id {
                Some(id) => ledger.record(id.clone()),
                None => {},
            }
        } else {
            self.state = TaskState::Failed;
        }
    }
}

} // verus!
