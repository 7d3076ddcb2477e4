//! Verified core of a bulk audio mirror: a fixed catalog of books and
//! chapters, sanitized local paths, request URLs, and the progress
//! accounting that a concurrent download run feeds.

mod catalog;
mod downloader;
mod orchestrator;
mod paths;
mod progress;

pub use catalog::bible_catalog;
pub use catalog::total_files;
pub use catalog::BibleBook;
pub use downloader::BibleAudioDownloader;
pub use orchestrator::apply_resolution;
pub use orchestrator::classify_status;
pub use orchestrator::fail_with;
pub use orchestrator::run_schedule;
pub use orchestrator::should_fetch;
pub use orchestrator::work_items;
pub use orchestrator::WorkerPool;
pub use orchestrator::DownloadError;
pub use orchestrator::ItemResolution;
pub use orchestrator::WorkItem;
pub use paths::chapter_file_name;
pub use paths::chapter_rel_path;
pub use paths::chapter_url;
pub use paths::sanitize_filename;
pub use progress::render_line;
pub use progress::DownloadProgress;
pub use progress::FailureRecord;
