//! Keeping the `@file` browser in step with the composer line: it opens on
//! an active `@` token, follows edits of that token, and stays closed on a
//! token the user dismissed until the token's text changes.
use vstd::prelude::*;
use crate::text::str_eq;

verus! {

/// What a re-scan of the composer line does to the `@file` browser.
#[derive(Debug, PartialEq, Eq)]
pub enum FileMenuStep {
    /// Close it (the dismissal is kept).
    Close,
    /// Close it and forget the dismissal: a fresh `@` may reopen it.
    Forget,
    /// It is open on the token: follow the token and its query.
    Follow,
    /// The token was dismissed and has not changed: stay closed.
    StayClosed,
    /// Open it on the token (forgetting an older dismissal).
    Open,
}

/// What a re-scan does: vim normal mode and the slash menu close the
/// browser; a caret line that is gone closes it; no `@` token at the caret
/// closes it and forgets the dismissal; otherwise an open browser follows
/// the token, and a closed one opens unless this very token was dismissed.
pub fn file_menu_step(
    vim_normal: bool,
    slash_open: bool,
    line_exists: bool,
    token_tag: Option<&str>,
    menu_open: bool,
    dismissed: Option<&str>,
) -> (r: FileMenuStep)
    ensures
        vim_normal || slash_open || !line_exists ==> r == FileMenuStep::Close,
        !vim_normal && !slash_open && line_exists ==> match token_tag {
            None => r == FileMenuStep::Forget,
            Some(tag) => if menu_open {
                r == FileMenuStep::Follow
            } else if dismissed matches Some(d) && d@ == tag@ {
                r == FileMenuStep::StayClosed
            } else {
                r == FileMenuStep::Open
            },
        },
{
    if vim_normal || slash_open || !line_exists {
        return FileMenuStep::Close;
    }
    match token_tag {
        None => FileMenuStep::Forget,
        Some(tag) => {
            if menu_open {
                return FileMenuStep::Follow;
            }
            let same = match dismissed {
                Some(d) => str_eq(d, tag),
                None => false,
            };
            if same {
                FileMenuStep::StayClosed
            } else {
                FileMenuStep::Open
            }
        },
    }
}

} // verus!
