//! Turning the desktop's notification banners off for a focus interval:
//! what `gsettings` is asked, and what its answers mean.
//!
//! The key belongs to the desktop, so every failure is soft: an answer that
//! cannot be read is no answer, and the banners are then left alone.

use crate::text::{trim, trimmed};
use vstd::prelude::*;

verus! {

/// The schema and key GNOME's own "Do Not Disturb" switch writes.
pub open spec fn banners_schema() -> Seq<char> {
    "org.gnome.desktop.notifications"@
}

pub open spec fn banners_key() -> Seq<char> {
    "show-banners"@
}

/// What `gsettings get` printed, as the banner setting: `None` when it
/// failed or printed anything but `true` or `false`.
pub open spec fn banners_answer(success: bool, stdout: Seq<char>) -> Option<bool> {
    if !success {
        None
    } else if trimmed(stdout) == "true"@ {
        Some(true)
    } else if trimmed(stdout) == "false"@ {
        Some(false)
    } else {
        None
    }
}

/// The arguments that read the banner setting.
pub fn read_banners_args() -> (r: Vec<&'static str>)
    ensures
        r@.len() == 3,
        r@[0]@ == "get"@,
        r@[1]@ == banners_schema(),
        r@[2]@ == banners_key(),
{
    let mut r: Vec<&'static str> = Vec::new();
    r.push("get");
    r.push("org.gnome.desktop.notifications");
    r.push("show-banners");
    r
}

/// The arguments that write the banner setting.
pub fn write_banners_args(value: bool) -> (r: Vec<&'static str>)
    ensures
        r@.len() == 4,
        r@[0]@ == "set"@,
        r@[1]@ == banners_schema(),
        r@[2]@ == banners_key(),
        r@[3]@ == (if value {
            "true"@
        } else {
            "false"@
        }),
{
    let mut r: Vec<&'static str> = Vec::new();
    r.push("set");
    r.push("org.gnome.desktop.notifications");
    r.push("show-banners");
    r.push(
        if value {
            "true"
        } else {
            "false"
        },
    );
    r
}

/// Reads the banner setting out of `gsettings get`'s answer; see
/// [`banners_answer`].
pub fn show_banners_from(success: bool, stdout: &str) -> (r: Option<bool>)
    ensures
        r == banners_answer(success, stdout@),
{
    if !success {
        return None;
    }
    let answer = trim(stdout);
    if crate::text::same_text(answer, "true") {
        Some(true)
    } else if crate::text::same_text(answer, "false") {
        Some(false)
    } else {
        None
    }
}

pub open spec fn unanswered_message() -> Seq<char> {
    "gsettings could not be run, or did not answer in time"@
}

pub open spec fn refused_message(stderr: Seq<char>) -> Seq<char> {
    "gsettings refused to set "@ + banners_schema() + " "@ + banners_key() + ": "@ + trimmed(stderr)
}

/// What `gsettings set`'s answer means: done, or the reason it refused,
/// which is the tool's own words and never anything from a notification.
pub fn written_from(success: bool, stderr: &str) -> (r: Result<(), String>)
    ensures
        success ==> r is Ok,
        !success ==> (r matches Err(m) && m@ == refused_message(stderr@)),
{
    if success {
        return Ok(());
    }
    let mut m = "gsettings refused to set org.gnome.desktop.notifications show-banners: ".to_owned();
    m.append(trim(stderr));
    proof {
        reveal_strlit("gsettings refused to set org.gnome.desktop.notifications show-banners: ");
        reveal_strlit("gsettings refused to set ");
        reveal_strlit("org.gnome.desktop.notifications");
        reveal_strlit(" ");
        reveal_strlit("show-banners");
        reveal_strlit(": ");
        assert(m@ =~= refused_message(stderr@));
    }
    Err(m)
}

/// The message when `gsettings` could not be run or did not answer.
pub fn unanswered() -> (r: String)
    ensures
        r@ == unanswered_message(),
{
    "gsettings could not be run, or did not answer in time".to_owned()
}

} // verus!
