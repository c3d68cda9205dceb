//! Rendering configuration: per-model display toggles, symbols, widths and
//! limits, and the bookmark-name rewriting they control.

use vstd::prelude::*;

use crate::strutil::spec_starts_with;

verus! {

/// Symbol shown before jj-style working copies.
pub const DEFAULT_JJ_SYMBOL: &'static str = "\u{f15c6} ";

/// Symbol shown before git-style working copies.
pub const DEFAULT_GIT_SYMBOL: &'static str = "\u{e702} ";

/// Which segments of the prompt are rendered, and whether they are colored.
/// The six toggles are independent; any combination is meaningful.
#[derive(Clone, Copy, Debug)]
pub struct DisplayConfig {
    pub show_prefix: bool,
    pub show_name: bool,
    pub show_id: bool,
    pub show_status: bool,
    pub show_color: bool,
    pub show_prefix_color: bool,
}

impl DisplayConfig {
    /// Every segment shown, color on.
    pub fn all_visible() -> (c: DisplayConfig)
        ensures
            c.show_prefix,
            c.show_name,
            c.show_id,
            c.show_status,
            c.show_color,
            c.show_prefix_color,
    {
        DisplayConfig {
            show_prefix: true,
            show_name: true,
            show_id: true,
            show_status: true,
            show_color: true,
            show_prefix_color: true,
        }
    }
}

/// Fully resolved rendering configuration. Widths and limits of zero mean
/// "unlimited"; `strip_prefixes` is checked in order, first match wins.
#[derive(Debug)]
pub struct Config {
    /// Maximum rendered length of a branch or bookmark name, ellipsis
    /// included; 0 disables truncation.
    pub truncate_name: usize,
    /// How many characters of the change identifier are displayed.
    pub id_length: usize,
    /// Depth bound for the ancestor bookmark search; 0 disables it.
    pub ancestor_bookmark_depth: usize,
    /// How many bookmarks are listed before the rest are folded into a
    /// `…+N` marker; 0 shows all of them.
    pub bookmark_display_limit: usize,
    /// Literal prefixes stripped from bookmark names before display.
    pub strip_prefixes: Vec<String>,
    pub jj_symbol: String,
    pub git_symbol: String,
    pub jj_display: DisplayConfig,
    pub git_display: DisplayConfig,
}

/// `name` with the first matching prefix of `prefixes` removed; unchanged
/// when none matches.
pub open spec fn spec_strip(name: Seq<char>, prefixes: Seq<String>) -> Seq<char>
    decreases prefixes.len(),
{
    if prefixes.len() == 0 {
        name
    } else if spec_starts_with(name, prefixes[0]@) {
        name.skip(prefixes[0]@.len() as int)
    } else {
        spec_strip(name, prefixes.drop_first())
    }
}

/// `name` cut to `width` characters in all: when it is longer than a nonzero
/// `width`, the first `width - 1` characters followed by one ellipsis.
pub open spec fn spec_truncate(name: Seq<char>, width: nat) -> Seq<char> {
    if width == 0 || name.len() <= width {
        name
    } else {
        name.take(width - 1) + "\u{2026}"@
    }
}

/// A bookmark name as it is displayed: stripped first, truncated second.
pub open spec fn spec_display_name(name: Seq<char>, prefixes: Seq<String>, width: nat) -> Seq<
    char,
> {
    spec_truncate(spec_strip(name, prefixes), width)
}

impl Config {
    /// Remove the first configured prefix that matches `name`.
    pub fn strip(&self, name: &str) -> (out: String)
        ensures
            out@ == spec_strip(name@, self.strip_prefixes@),
    {
        let n: usize = self.strip_prefixes.len();
        proof {
            assert(self.strip_prefixes@.skip(0) =~= self.strip_prefixes@);
        }
        let mut i: usize = 0;
        while i < n
            invariant
                i <= n,
                n == self.strip_prefixes@.len(),
                spec_strip(name@, self.strip_prefixes@) == spec_strip(
                    name@,
                    self.strip_prefixes@.skip(i as int),
                ),
            decreases n - i,
        {
            let p: &String = &self.strip_prefixes[i];
            if crate::strutil::str_starts_with(name, p.as_str()) {
                let plen: usize = p.as_str().unicode_len();
                let nlen: usize = name.unicode_len();
                let rest = name.substring_char(plen, nlen);
                assert(self.strip_prefixes@.skip(i as int)[0] == self.strip_prefixes@[i as int]);
                return String::from_str(rest);
            }
            proof {
                assert(self.strip_prefixes@.skip(i as int)[0] == self.strip_prefixes@[i as int]);
                assert(self.strip_prefixes@.skip(i as int).drop_first() =~= self.strip_prefixes@.skip(
                    i + 1,
                ));
            }
            i += 1;
        }
        String::from_str(name)
    }

    /// Cut `name` down to the configured width, ellipsis included.
    pub fn truncate(&self, name: &str) -> (out: String)
        ensures
            out@ == spec_truncate(name@, self.truncate_name as nat),
    {
        let len: usize = name.unicode_len();
        if self.truncate_name == 0 || len <= self.truncate_name {
            String::from_str(name)
        } else {
            let head = name.substring_char(0, self.truncate_name - 1);
            let mut out = String::from_str(head);
            out.append("\u{2026}");
            assert(out@ =~= spec_truncate(name@, self.truncate_name as nat));
            out
        }
    }

    /// A bookmark name as displayed: prefix-stripped, then truncated.
    pub fn display_name(&self, name: &str) -> (out: String)
        ensures
            out@ == spec_display_name(
                name@,
                self.strip_prefixes@,
                self.truncate_name as nat,
            ),
    {
        let stripped = self.strip(name);
        self.truncate(stripped.as_str())
    }

    /// Resolve a configuration from optional overrides: an absent value falls
    /// back to its default (no truncation, eight identifier digits, search
    /// depth ten, no bookmark limit); `no_symbol` blanks both symbols.
    pub fn new(
        truncate_name: Option<usize>,
        id_length: Option<usize>,
        ancestor_bookmark_depth: Option<usize>,
        bookmark_display_limit: Option<usize>,
        strip_prefixes: Vec<String>,
        jj_symbol: Option<String>,
        git_symbol: Option<String>,
        no_symbol: bool,
        jj_display: DisplayConfig,
        git_display: DisplayConfig,
    ) -> (c: Config)
        ensures
            c.truncate_name == truncate_name.unwrap_or(0),
            c.id_length == id_length.unwrap_or(8),
            c.ancestor_bookmark_depth == ancestor_bookmark_depth.unwrap_or(10),
            c.bookmark_display_limit == bookmark_display_limit.unwrap_or(0),
            c.strip_prefixes == strip_prefixes,
            c.jj_symbol@ == (if no_symbol {
                Seq::<char>::empty()
            } else {
                match jj_symbol {
                    Some(s) => s@,
                    None => DEFAULT_JJ_SYMBOL@,
                }
            }),
            c.git_symbol@ == (if no_symbol {
                Seq::<char>::empty()
            } else {
                match git_symbol {
                    Some(s) => s@,
                    None => DEFAULT_GIT_SYMBOL@,
                }
            }),
            c.jj_display == jj_display,
            c.git_display == git_display,
    {
        let jj_sym: String = if no_symbol {
            String::new()
        } else {
            match jj_symbol {
                Some(s) => s,
                None => String::from_str(DEFAULT_JJ_SYMBOL),
            }
        };
        let git_sym: String = if no_symbol {
            String::new()
        } else {
            match git_symbol {
                Some(s) => s,
                None => String::from_str(DEFAULT_GIT_SYMBOL),
            }
        };
        Config {
            truncate_name: truncate_name.unwrap_or(0),
            id_length: id_length.unwrap_or(8),
            ancestor_bookmark_depth: ancestor_bookmark_depth.unwrap_or(10),
            bookmark_display_limit: bookmark_display_limit.unwrap_or(0),
            strip_prefixes,
            jj_symbol: jj_sym,
            git_symbol: git_sym,
            jj_display,
            git_display,
        }
    }
}

impl Default for Config {
    /// Unlimited widths, depth ten, default symbols, everything visible.
    fn default() -> (c: Config)
        ensures
            c.truncate_name == 0,
            c.id_length == 8,
            c.ancestor_bookmark_depth == 10,
            c.bookmark_display_limit == 0,
            c.strip_prefixes@ == Seq::<String>::empty(),
            c.jj_symbol@ == DEFAULT_JJ_SYMBOL@,
            c.git_symbol@ == DEFAULT_GIT_SYMBOL@,
            c.jj_display.show_prefix && c.jj_display.show_name && c.jj_display.show_id
                && c.jj_display.show_status && c.jj_display.show_color
                && c.jj_display.show_prefix_color,
            c.git_display.show_prefix && c.git_display.show_name && c.git_display.show_id
                && c.git_display.show_status && c.git_display.show_color
                && c.git_display.show_prefix_color,
    {
        Config {
            truncate_name: 0,
            id_length: 8,
            ancestor_bookmark_depth: 10,
            bookmark_display_limit: 0,
            strip_prefixes: Vec::new(),
            jj_symbol: String::from_str(DEFAULT_JJ_SYMBOL),
            git_symbol: String::from_str(DEFAULT_GIT_SYMBOL),
            jj_display: DisplayConfig::all_visible(),
            git_display: DisplayConfig::all_visible(),
        }
    }
}

} // verus!
