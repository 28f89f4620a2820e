//! Window inventory: the filtering policy that decides which top-level
//! windows are listed, and the construction of one record per surviving
//! window, substituting a transparent placeholder when icon extraction
//! fails.
use vstd::prelude::*;

use crate::icon::{is_placeholder, placeholder_icon, DecodedIcon, WindowIconError};
use vstd::std_specs::iter::IteratorSpec;

verus! {

/// The style bit that marks a window as currently visible.
pub const WS_VISIBLE: u32 = 0x1000_0000;

/// The extended style bit that marks a utility/palette window not meant for
/// task switching.
pub const WS_EX_TOOLWINDOW: u32 = 0x0000_0080;

/// The window-class name of the shell's core pseudo-windows, which show up
/// in enumeration but are not user-facing tasks.
pub open spec fn shell_pseudo_class() -> Seq<char> {
    "Windows.UI.Core.CoreWindow"@
}

/// ASCII whitespace, the characters stripped by title trimming.
pub open spec fn is_space_char(c: char) -> bool {
    c == ' ' || c == '\t' || c == '\n' || c == '\r' || c == '\u{000B}' || c == '\u{000C}'
}

/// Whether a title is empty or consists of whitespace only.
pub open spec fn is_blank(s: Seq<char>) -> bool {
    forall|i: int| 0 <= i < s.len() ==> is_space_char(s[i])
}

/// Executable test for one whitespace character.
pub fn is_space(c: char) -> (r: bool)
    ensures
        r == is_space_char(c),
{
    c == ' ' || c == '\t' || c == '\n' || c == '\r' || c == '\u{000B}' || c == '\u{000C}'
}

/// Whether `title` is empty or whitespace-only.
pub fn title_is_blank(title: &str) -> (r: bool)
    ensures
        r == is_blank(title@),
{
    let ghost all: Seq<char> = title@;
    let mut it = title.chars();
    let ghost mut seen: int = 0;
    assert(it.remaining() == all);
    loop
        invariant
            all == title@,
            0 <= seen <= all.len(),
            it.remaining() == all.skip(seen),
            it.obeys_prophetic_iter_laws(),
            forall|j: int| 0 <= j < seen ==> is_space_char(all[j]),
        decreases all.len() - seen,
    {
        let ghost prev: Seq<char> = it.remaining();
        match it.next() {
            Some(c) => {
                proof {
                    assert(prev.len() > 0);
                    assert(c == all.skip(seen)[0]);
                    assert(c == all[seen]);
                    assert(all.skip(seen).drop_first() =~= all.skip(seen + 1));
                }
                if !is_space(c) {
                    assert(!is_blank(all)) by {
                        assert(!is_space_char(all[seen]));
                    }
                    return false;
                }
                proof {
                    seen = seen + 1;
                }
            },
            None => {
                proof {
                    assert(all.skip(seen).len() == 0);
                    assert(seen == all.len());
                }
                return true;
            },
        }
    }
}

/// What the platform's enumeration reports about one top-level window,
/// before filtering: its handle, raw style words, decoded title and
/// window-class name.
pub struct RawWindow {
    pub handle: usize,
    pub style: u32,
    pub ex_style: u32,
    pub title: String,
    pub class_name: String,
}

/// The filtering policy: a window is listed exactly when it is visible, is
/// not a tool window, has a title that is not whitespace-only, and is not a
/// shell core pseudo-window.
pub open spec fn spec_should_list(
    style: u32,
    ex_style: u32,
    title: Seq<char>,
    class_name: Seq<char>,
) -> bool {
    &&& style & WS_VISIBLE != 0
    &&& ex_style & WS_EX_TOOLWINDOW == 0
    &&& !is_blank(title)
    &&& class_name != shell_pseudo_class()
}

/// The filtering policy over one enumerated window.
pub open spec fn listed(w: RawWindow) -> bool {
    spec_should_list(w.style, w.ex_style, w.title@, w.class_name@)
}

/// The subsequence of enumerated windows that the policy lists.
pub open spec fn listed_windows(s: Seq<RawWindow>) -> Seq<RawWindow> {
    s.filter(|w: RawWindow| listed(w))
}

/// Decides whether a window with the given style words, title and class
/// name belongs in the inventory.
pub fn should_list_window(style: u32, ex_style: u32, title: &String, class_name: &String) -> (r:
    bool)
    ensures
        r == spec_should_list(style, ex_style, title@, class_name@),
{
    if style & WS_VISIBLE == 0 {
        return false;
    }
    if ex_style & WS_EX_TOOLWINDOW != 0 {
        return false;
    }
    if title_is_blank(title.as_str()) {
        return false;
    }
    let shell: String = "Windows.UI.Core.CoreWindow".to_owned();
    if *class_name == shell {
        return false;
    }
    true
}

/// Keeps exactly the enumerated windows that the filtering policy lists,
/// in enumeration order.
pub fn filter_windows(candidates: Vec<RawWindow>) -> (r: Vec<RawWindow>)
    ensures
        r@ == listed_windows(candidates@),
{
    let ghost orig: Seq<RawWindow> = candidates@;
    let ghost pred = |w: RawWindow| listed(w);
    let mut rest = candidates;
    let mut out: Vec<RawWindow> = Vec::new();
    let ghost mut i: int = 0;
    proof {
        assert(orig.take(0).filter(pred) =~= Seq::<RawWindow>::empty());
    }
    while rest.len() > 0
        invariant
            pred == (|w: RawWindow| listed(w)),
            0 <= i <= orig.len(),
            rest@ == orig.skip(i),
            out@ == orig.take(i).filter(pred),
        decreases rest@.len(),
    {
        let w = rest.remove(0);
        let keep = should_list_window(w.style, w.ex_style, &w.title, &w.class_name);
        if keep {
            out.push(w);
        }
        proof {
            reveal(Seq::filter);
            assert(w == orig[i]);
            assert(rest@ =~= orig.skip(i + 1));
            assert(orig.take(i + 1).drop_last() =~= orig.take(i));
            assert(orig.take(i + 1).last() == orig[i]);
            assert(out@ == orig.take(i + 1).filter(pred));
            i = i + 1;
        }
    }
    proof {
        assert(orig.take(i) =~= orig);
    }
    out
}

/// Every window the policy keeps was among the enumerated candidates.
proof fn lemma_filter_subset(s: Seq<RawWindow>)
    ensures
        forall|j: int|
            0 <= j < listed_windows(s).len() ==> s.contains(#[trigger] listed_windows(s)[j]),
    decreases s.len(),
{
    reveal(Seq::filter);
    let pred = |w: RawWindow| listed(w);
    let f = listed_windows(s);
    if s.len() > 0 {
        let prefix = s.drop_last();
        lemma_filter_subset(prefix);
        assert forall|j: int| 0 <= j < f.len() implies s.contains(f[j]) by {
            if pred(s.last()) && j == f.len() - 1 {
                assert(f[j] == s.last());
                assert(s[s.len() - 1] == s.last());
            } else {
                assert(f[j] == listed_windows(prefix)[j]);
                assert(prefix.contains(listed_windows(prefix)[j]));
                let k = choose|k: int| 0 <= k < prefix.len() && prefix[k] == f[j];
                assert(s[k] == f[j]);
            }
        }
    }
}

/// The inventory never lists one handle twice: when enumeration reported
/// distinct handles, the filtered inventory keeps them distinct.
pub proof fn lemma_filter_keeps_distinct_handles(candidates: Seq<RawWindow>)
    requires
        forall|a: int, b: int|
            0 <= a < b < candidates.len() ==> candidates[a].handle != candidates[b].handle,
    ensures
        forall|a: int, b: int|
            0 <= a < b < listed_windows(candidates).len() ==> (
            #[trigger] listed_windows(candidates)[a]).handle != (
            #[trigger] listed_windows(candidates)[b]).handle,
    decreases candidates.len(),
{
    reveal(Seq::filter);
    let pred = |w: RawWindow| listed(w);
    let f = listed_windows(candidates);
    if candidates.len() > 0 {
        let prefix = candidates.drop_last();
        assert(forall|a: int, b: int|
            0 <= a < b < prefix.len() ==> prefix[a].handle != prefix[b].handle);
        lemma_filter_keeps_distinct_handles(prefix);
        lemma_filter_subset(prefix);
        assert forall|a: int, b: int| 0 <= a < b < f.len() implies f[a].handle
            != f[b].handle by {
            if pred(candidates.last()) && b == f.len() - 1 {
                assert(f[b] == candidates.last());
                assert(f[a] == listed_windows(prefix)[a]);
                assert(prefix.contains(listed_windows(prefix)[a]));
                let k = choose|k: int| 0 <= k < prefix.len() && prefix[k] == f[a];
                assert(candidates[k] == f[a]);
                assert(candidates[k].handle != candidates[candidates.len() - 1].handle);
            } else {
                assert(f[a] == listed_windows(prefix)[a]);
                assert(f[b] == listed_windows(prefix)[b]);
            }
        }
    }
}

/// One inventory entry: a window handle, its title, and its decoded icon.
/// The icon is always present; a placeholder stands in where extraction
/// failed.
#[derive(Debug)]
pub struct WindowInfo {
    pub handle: usize,
    pub title: String,
    pub icon: Option<DecodedIcon>,
    pub icon_size: Option<(usize, usize)>,
}

/// Builds the record for one listed window from the outcome of icon
/// extraction. Extraction failure is recoverable per item: the record gets
/// the 32-by-32 fully transparent placeholder instead of being omitted.
pub fn build_record(handle: usize, title: String, extracted: Result<
    DecodedIcon,
    WindowIconError,
>) -> (r: WindowInfo)
    ensures
        r.handle == handle,
        r.title == title,
        extracted matches Ok(icon) ==> r.icon == Some(icon) && r.icon_size == Some(
            (icon.width, icon.height),
        ),
        extracted is Err ==> (r.icon matches Some(ph) && is_placeholder(ph)) && r.icon_size
            == Some((32usize, 32usize)),
        r.icon is Some,
{
    match extracted {
        Ok(icon) => {
            let w = icon.width;
            let h = icon.height;
            WindowInfo { handle, title, icon: Some(icon), icon_size: Some((w, h)) }
        },
        Err(_) => WindowInfo {
            handle,
            title,
            icon: Some(placeholder_icon()),
            icon_size: Some((32, 32)),
        },
    }
}

} // verus!
