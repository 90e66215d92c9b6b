//! The directory captures are stored in: rooted beneath a caller-supplied
//! base directory, named by percent-encoding the target URL, with one
//! `.html` file per capture named by its canonical timestamp. The file
//! name is the capture's identity, so a capture already on disk is never
//! fetched again. Creating the directory and writing files is the
//! caller's; this module builds the paths and asks the file system what
//! exists.
use vstd::prelude::*;

use crate::wbm_api::{url_encode, url_encoded};
use crate::wbm_chrono::year_month_day_hour_minute_second::YearMonthDayHourMinuteSecond;

verus! {

/// The directory one target URL's captures are stored in.
pub struct OutputDirectory {
    path: String,
}

impl View for OutputDirectory {
    type V = Seq<char>;

    closed spec fn view(&self) -> Seq<char> {
        self.path@
    }
}

/// The directory path for a target URL beneath a base directory: the base,
/// a separator unless the base already ends with one, then the
/// percent-encoded URL.
pub open spec fn spec_directory_path(base: Seq<char>, url: Seq<char>) -> Seq<char> {
    if base.len() > 0 && base.last() == '/' {
        base + url_encoded(url)
    } else {
        base + seq!['/'] + url_encoded(url)
    }
}

/// The file name of a capture: its canonical timestamp with the fixed
/// `.html` extension.
pub open spec fn spec_capture_file_name(key: Seq<char>) -> Seq<char> {
    key + ".html"@
}

/// Relies on `std::path::Path::exists`: whether something exists on disk
/// at the path. The answer depends on the state of the disk, so nothing
/// is promised of it.
#[verifier::external_body]
fn path_exists(path: &str) -> bool {
    std::path::Path::new(path).exists()
}

impl OutputDirectory {
    /// The store for `url`'s captures beneath `base_path`. The caller is
    /// responsible for checking that the base directory exists and for
    /// creating the store directory itself.
    pub fn new(url: &str, base_path: &str) -> (r: OutputDirectory)
        requires
            base_path@.len() <= usize::MAX,
        ensures
            r@ == spec_directory_path(base_path@, url@),
    {
        let n = base_path.unicode_len();
        let mut path = String::from_str(base_path);
        if n == 0 || base_path.get_char(n - 1) != '/' {
            path.append("/");
            proof {
                reveal_strlit("/");
            }
        }
        let encoded = url_encode(url);
        path.append(encoded.as_str());
        assert(path@ =~= spec_directory_path(base_path@, url@));
        OutputDirectory { path }
    }

    /// The directory's path, for the caller that creates it on disk.
    pub fn path(&self) -> (r: &str)
        ensures
            r@ == self@,
    {
        self.path.as_str()
    }

    /// The full path of the file a capture is, or would be, stored at.
    pub fn capture_file_path(&self, ymdhms: &YearMonthDayHourMinuteSecond) -> (r: String)
        ensures
            r@ == self@ + seq!['/'] + spec_capture_file_name(ymdhms@),
    {
        let mut path = self.path.clone();
        path.append("/");
        path.append(ymdhms.as_wbm_datetime_str());
        path.append(".html");
        proof {
            reveal_strlit("/");
        }
        assert(path@ =~= self@ + seq!['/'] + spec_capture_file_name(ymdhms@));
        path
    }

    /// Whether the capture's file already exists on disk, in which case
    /// the capture is skipped rather than fetched again.
    pub fn check_if_capture_exists(&self, ymdhms: &YearMonthDayHourMinuteSecond) -> bool {
        let path = self.capture_file_path(ymdhms);
        path_exists(path.as_str())
    }
}

} // verus!
