//! A platform that is used through a command of the user's own.
use vstd::prelude::*;

use crate::text::search;
use crate::text::search::replaced;

verus! {

/// Custom command forge — runs a user-defined command template.
pub struct Custom {
    cmd_template: String,
}

impl View for Custom {
    type V = Seq<char>;

    closed spec fn view(&self) -> Seq<char> {
        self.cmd_template@
    }
}

/// The command with its placeholders filled in, in this order.
pub open spec fn expanded(
    template: Seq<char>,
    hash: Seq<char>,
    subject: Seq<char>,
    body: Seq<char>,
    message_file: Seq<char>,
) -> Seq<char> {
    search::replace(
        search::replace(
            search::replace(
                search::replace(template, "{hash}"@, hash),
                "{subject}"@,
                subject,
            ),
            "{message}"@,
            body,
        ),
        "{message_file}"@,
        message_file,
    )
}

/// What is said of the command's end.
pub open spec fn told_end(success: bool) -> Seq<char> {
    if success {
        "Custom command completed successfully."@
    } else {
        "Custom command exited with error."@
    }
}

impl Clone for Custom {
    fn clone(&self) -> (r: Custom)
        ensures
            r@ == self@,
    {
        Custom { cmd_template: self.cmd_template.clone() }
    }
}

impl Custom {
    /// A platform that submits with this command.
    pub fn new(cmd_template: String) -> (r: Custom)
        ensures
            r@ == cmd_template@,
    {
        Custom { cmd_template }
    }

    /// The shell command that submits a commit; the description stands in
    /// `message_file` too.
    pub fn submit(&self, hash: &str, subject: &str, body: &str, message_file: &str) -> (r: String)
        ensures
            r@ == expanded(self@, hash@, subject@, body@, message_file@),
    {
        proof {
            reveal_strlit("{hash}");
            reveal_strlit("{subject}");
            reveal_strlit("{message}");
            reveal_strlit("{message_file}");
        }
        let a = replaced(self.cmd_template.as_str(), "{hash}", hash);
        let b = replaced(a.as_str(), "{subject}", subject);
        let c = replaced(b.as_str(), "{message}", body);
        replaced(c.as_str(), "{message_file}", message_file)
    }

    /// What is said of the command's end.
    pub fn submitted(&self, success: bool) -> (r: String)
        ensures
            r@ == told_end(success),
    {
        if success {
            "Custom command completed successfully.".to_owned()
        } else {
            "Custom command exited with error.".to_owned()
        }
    }
}

/// What is said where all reviews are to be brought up to date.
pub const NO_SYNC: &'static str =
    "Custom commands don't support sync — re-submit individually with 'p'.";

} // verus!
