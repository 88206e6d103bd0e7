use vstd::prelude::*;

use crate::segment::Color;

verus! {

/// The foreground and background colors of every kind of git segment.
#[derive(Clone, Copy, Debug, PartialEq, Eq, Structural)]
pub struct GitPalette {
    pub ahead_fg: Color,
    pub ahead_bg: Color,
    pub behind_fg: Color,
    pub behind_bg: Color,
    pub staged_fg: Color,
    pub staged_bg: Color,
    pub notstaged_fg: Color,
    pub notstaged_bg: Color,
    pub untracked_fg: Color,
    pub untracked_bg: Color,
    pub conflicted_fg: Color,
    pub conflicted_bg: Color,
    pub repo_clean_fg: Color,
    pub repo_clean_bg: Color,
    pub repo_dirty_fg: Color,
    pub repo_dirty_bg: Color,
    pub repo_error_fg: Color,
    pub repo_error_bg: Color,
}

/// A color theme for the git module, chosen once when the module is built.
pub trait GitScheme {
    /// The theme's git colors.
    spec fn palette_spec() -> GitPalette;

    fn git_palette() -> (r: GitPalette)
        ensures
            r == Self::palette_spec(),
    ;
}

/// The default theme.
pub struct SimpleTheme;

/// The default theme's git colors.
pub open spec fn simple_git_palette() -> GitPalette {
    GitPalette {
        ahead_fg: Color(250),
        ahead_bg: Color(240),
        behind_fg: Color(250),
        behind_bg: Color(240),
        staged_fg: Color(15),
        staged_bg: Color(22),
        notstaged_fg: Color(15),
        notstaged_bg: Color(130),
        untracked_fg: Color(15),
        untracked_bg: Color(52),
        conflicted_fg: Color(15),
        conflicted_bg: Color(9),
        repo_clean_fg: Color(0),
        repo_clean_bg: Color(148),
        repo_dirty_fg: Color(15),
        repo_dirty_bg: Color(161),
        repo_error_fg: Color(15),
        repo_error_bg: Color(196),
    }
}

impl GitScheme for SimpleTheme {
    open spec fn palette_spec() -> GitPalette {
        simple_git_palette()
    }

    fn git_palette() -> (r: GitPalette) {
        GitPalette {
            ahead_fg: Color(250),
            ahead_bg: Color(240),
            behind_fg: Color(250),
            behind_bg: Color(240),
            staged_fg: Color(15),
            staged_bg: Color(22),
            notstaged_fg: Color(15),
            notstaged_bg: Color(130),
            untracked_fg: Color(15),
            untracked_bg: Color(52),
            conflicted_fg: Color(15),
            conflicted_bg: Color(9),
            repo_clean_fg: Color(0),
            repo_clean_bg: Color(148),
            repo_dirty_fg: Color(15),
            repo_dirty_bg: Color(161),
            repo_error_fg: Color(15),
            repo_error_bg: Color(196),
        }
    }
}

} // verus!
