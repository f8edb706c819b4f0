//! What the screen shows, computed apart from the drawing: durations, sync
//! markers, clipped labels, the spawn dialog's placement and the like.

use vstd::prelude::*;
use vstd::string::*;
use vstd::utf8::*;
use crate::app::App;
use crate::gastown::Convoy;
use crate::text::{all_digits, decimal, digit_value, lemma_decimal_digits, push_decimal, replace_all, replace_text};

verus! {

/// An uptime of `secs` seconds as `"{h}h {m}m"`, or `"{m}m"` under an hour.
pub open spec fn duration_text(secs: u64) -> Seq<char> {
    let h = secs / 3600;
    let m = (secs % 3600) / 60;
    if h > 0 {
        decimal(h as nat) + "h "@ + decimal(m as nat) + "m"@
    } else {
        decimal(m as nat) + "m"@
    }
}

/// Renders an uptime of `secs` seconds in hours and minutes.
pub fn format_duration(secs: u64) -> (r: String)
    ensures
        r@ == duration_text(secs),
{
    let h = secs / 3600;
    let m = (secs % 3600) / 60;
    let mut out = String::new();
    if h > 0 {
        push_decimal(&mut out, h);
        out.push_str("h ");
        push_decimal(&mut out, m);
        out.push_str("m");
    } else {
        push_decimal(&mut out, m);
        out.push_str("m");
    }
    out
}

/// How far a branch is from its upstream: `↑a↓b` when both ahead and
/// behind, `↑a` or `↓b` when only one, `synced` when neither.
pub open spec fn sync_text(ahead: u32, behind: u32) -> Seq<char> {
    if ahead > 0 && behind > 0 {
        seq!['↑'] + decimal(ahead as nat) + seq!['↓'] + decimal(behind as nat)
    } else if ahead > 0 {
        seq!['↑'] + decimal(ahead as nat)
    } else if behind > 0 {
        seq!['↓'] + decimal(behind as nat)
    } else {
        "synced"@
    }
}

/// Renders how far a branch is ahead of and behind its upstream.
pub fn sync_label(ahead: u32, behind: u32) -> (r: String)
    ensures
        r@ == sync_text(ahead, behind),
{
    let mut out = String::new();
    if ahead > 0 && behind > 0 {
        out.push('↑');
        push_decimal(&mut out, ahead as u64);
        out.push('↓');
        push_decimal(&mut out, behind as u64);
    } else if ahead > 0 {
        out.push('↑');
        push_decimal(&mut out, ahead as u64);
    } else if behind > 0 {
        out.push('↓');
        push_decimal(&mut out, behind as u64);
    } else {
        out.push_str("synced");
    }
    out
}

/// The sync marker shows an up arrow exactly when the branch is ahead of
/// its upstream and a down arrow exactly when it is behind, the up arrow
/// first when there are both; it reads `synced` exactly when the branch is
/// neither ahead nor behind.
pub proof fn lemma_sync_arrows(ahead: u32, behind: u32)
    ensures
        sync_text(ahead, behind).contains('↑') == (ahead > 0),
        sync_text(ahead, behind).contains('↓') == (behind > 0),
        ahead > 0 ==> sync_text(ahead, behind)[0] == '↑',
        ahead == 0 && behind > 0 ==> sync_text(ahead, behind)[0] == '↓',
        (sync_text(ahead, behind) == "synced"@) == (ahead == 0 && behind == 0),
{
    reveal_strlit("synced");
    lemma_decimal_digits(ahead as nat);
    lemma_decimal_digits(behind as nat);
    let da = decimal(ahead as nat);
    let db = decimal(behind as nat);
    let t = sync_text(ahead, behind);
    assert forall|k: int| 0 <= k < da.len() implies da[k] != '↑' && da[k] != '↓' by {
        assert(digit_value(da[k]) is Some);
    }
    assert forall|k: int| 0 <= k < db.len() implies db[k] != '↑' && db[k] != '↓' by {
        assert(digit_value(db[k]) is Some);
    }
    if ahead > 0 && behind > 0 {
        assert(t[0] == '↑');
        assert(t[1 + da.len() as int] == '↓');
        assert forall|k: int| 0 <= k < t.len() && t[k] == '↓' implies k == 1 + da.len() by {
            if 1 <= k < 1 + da.len() {
                assert(t[k] == da[k - 1]);
            } else if k > 1 + da.len() {
                assert(t[k] == db[k - 2 - da.len()]);
            }
        }
        assert(t.len() != 6 || t[0] != 's');
    } else if ahead > 0 {
        assert(t[0] == '↑');
        assert forall|k: int| 0 <= k < t.len() implies t[k] != '↓' by {
            if k >= 1 {
                assert(t[k] == da[k - 1]);
            }
        }
    } else if behind > 0 {
        assert(t[0] == '↓');
        assert forall|k: int| 0 <= k < t.len() implies t[k] != '↑' by {
            if k >= 1 {
                assert(t[k] == db[k - 1]);
            }
        }
    } else {
        assert forall|k: int| 0 <= k < t.len() implies t[k] != '↑' && t[k] != '↓' by {}
    }
}

/// The word for a working tree: `modified` when dirty, `clean` otherwise.
pub fn dirty_label(dirty: bool) -> (r: &'static str)
    ensures
        r@ == (if dirty { "modified"@ } else { "clean"@ }),
{
    if dirty {
        "modified"
    } else {
        "clean"
    }
}

/// A label cut to fit: where the text is longer than `max_bytes` bytes, its
/// first `keep_bytes` bytes followed by `…`; otherwise the text itself.
pub open spec fn clipped_text(s: Seq<char>, max_bytes: nat, keep_bytes: nat) -> Seq<char> {
    if encode_utf8(s).len() > max_bytes {
        decode_utf8(encode_utf8(s).subrange(0, keep_bytes as int)).push('…')
    } else {
        s
    }
}

/// A clipped label is what fits plus an ellipsis: a text within the limit
/// is shown whole; a longer one cut between two characters shows its first
/// characters, exactly `keep_bytes` bytes of them, followed by `…`.
pub proof fn lemma_clip_keeps_prefix(s: Seq<char>, max_bytes: nat, keep_bytes: nat)
    ensures
        encode_utf8(s).len() <= max_bytes ==> clipped_text(s, max_bytes, keep_bytes) == s,
        encode_utf8(s).len() > max_bytes && is_char_boundary(encode_utf8(s), keep_bytes as int)
            ==> ({
            let c = clipped_text(s, max_bytes, keep_bytes);
            &&& c.len() > 0
            &&& c.last() == '…'
            &&& c.drop_last().is_prefix_of(s)
            &&& encode_utf8(c.drop_last()).len() == keep_bytes
        }),
{
    let b = encode_utf8(s);
    if b.len() > max_bytes && is_char_boundary(b, keep_bytes as int) {
        broadcast use encode_utf8_valid_utf8, encode_utf8_decode_utf8, decode_utf8_encode_utf8;
        let k = keep_bytes as int;
        if k > 0 {
            assert(k <= b.len());
        }
        let head = b.subrange(0, k);
        decode_utf8_split(b, k);
        valid_utf8_split(b, k);
        let p = decode_utf8(head);
        let c = clipped_text(s, max_bytes, keep_bytes);
        assert(c == p.push('…'));
        assert(c.drop_last() =~= p);
        assert(s == p + decode_utf8(b.subrange(k, b.len() as int)));
        assert(p =~= s.subrange(0, p.len() as int));
        assert(encode_utf8(p) == head);
    }
}

/// Cuts `s` to fit, as the convoy names and commit subjects are cut. The
/// cut must fall between two characters.
pub fn clip_text(s: &str, max_bytes: usize, keep_bytes: usize) -> (r: String)
    requires
        s.spec_bytes().len() > max_bytes ==> is_char_boundary(s.spec_bytes(), keep_bytes as int),
    ensures
        r@ == clipped_text(s@, max_bytes as nat, keep_bytes as nat),
{
    if s.as_bytes().len() > max_bytes {
        let (head, _tail) = s.split_at(keep_bytes);
        proof {
            broadcast use encode_utf8_decode_utf8;
            assert(decode_utf8(head.spec_bytes()) == head@);
            assert(head.spec_bytes() =~= encode_utf8(s@).subrange(0, keep_bytes as int));
            assert(encode_utf8(s@).len() > max_bytes);
        }
        let mut out = head.to_owned();
        out.push('…');
        assert(out@ == head@.push('…'));
        out
    } else {
        s.to_owned()
    }
}

/// A path as shown: every occurrence of the home directory replaced by `~`.
pub fn display_path(path: &str, home: &str) -> (r: String)
    ensures
        r@ == replace_all(path@, home@, "~"@),
{
    replace_text(path, home, "~")
}

/// The spawn dialog's rectangle (x, y, width, height) on a screen of the
/// given size: at most 50 by 14, four cells smaller than the screen in each
/// direction, centred.
pub open spec fn dialog_rect(width: u16, height: u16) -> (u16, u16, u16, u16) {
    let w: u16 = if width < 4 { 0 } else if width - 4 < 50 { (width - 4) as u16 } else { 50 };
    let h: u16 = if height < 4 { 0 } else if height - 4 < 14 { (height - 4) as u16 } else { 14 };
    (((width - w) / 2) as u16, ((height - h) / 2) as u16, w, h)
}

/// Places the spawn dialog on a screen of the given size.
pub fn spawn_dialog_rect(width: u16, height: u16) -> (r: (u16, u16, u16, u16))
    ensures
        r == dialog_rect(width, height),
{
    let dialog_width = if 50u16 < width.saturating_sub(4) { 50u16 } else { width.saturating_sub(4) };
    let dialog_height = if 14u16 < height.saturating_sub(4) {
        14u16
    } else {
        height.saturating_sub(4)
    };
    let x = width.saturating_sub(dialog_width) / 2;
    let y = height.saturating_sub(dialog_height) / 2;
    (x, y, dialog_width, dialog_height)
}

/// What a text field of the spawn dialog shows: the placeholder when it is
/// empty and selected, nothing when it is empty, its text otherwise.
pub fn field_text<'a>(value: &'a str, selected: bool, placeholder: &'a str) -> (r: &'a str)
    ensures
        r@ == (if value@.len() == 0 && selected {
            placeholder@
        } else if value@.len() == 0 {
            ""@
        } else {
            value@
        }),
{
    if value.is_empty() && selected {
        placeholder
    } else if value.is_empty() {
        ""
    } else {
        value
    }
}

/// The spinner's frame for animation tick `tick`: each of four frames
/// shows for two ticks.
pub open spec fn spinner_char(tick: u64) -> char {
    let i = ((tick as usize) / 2) % 4;
    if i == 0 { '◐' } else if i == 1 { '◓' } else if i == 2 { '◑' } else { '◒' }
}

/// The spinner's frame for the current tick.
pub fn spinner_frame(tick: u64) -> (c: char)
    ensures
        c == spinner_char(tick),
{
    let i = (tick as usize / 2) % 4;
    if i == 0 { '◐' } else if i == 1 { '◓' } else if i == 2 { '◑' } else { '◒' }
}

/// Whether the agent dot at index `i` (of `len`) ends a row of the overview
/// grid that is `cols` cells wide: rows hold half as many dots as cells
/// (at least one), and the last dot ends the last row.
pub open spec fn ends_row(i: usize, len: usize, cols: usize) -> bool {
    let per_row: int = if cols / 2 > 1 { (cols / 2) as int } else { 1 };
    (i + 1) % per_row == 0 || i == len - 1
}

/// Whether dot `i` ends a row of the agent overview grid.
pub fn ends_grid_row(i: usize, len: usize, cols: usize) -> (b: bool)
    requires
        i < len,
    ensures
        b == ends_row(i, len, cols),
{
    let per_row = if cols / 2 > 1 { cols / 2 } else { 1 };
    (i + 1) % per_row == 0 || i == len - 1
}

/// The beads of a convoy that are neither done nor in progress.
pub fn remaining_beads(c: &Convoy) -> (r: u32)
    requires
        c.completed_beads + c.in_progress_beads <= c.total_beads,
    ensures
        r == c.total_beads - c.completed_beads - c.in_progress_beads,
{
    c.total_beads - c.completed_beads - c.in_progress_beads
}

impl App {
    /// The number of beads the four bead counts cover.
    pub fn beads_total(&self) -> (r: u32)
        requires
            self.total_beads_done + self.total_beads_open + self.total_beads_progress
                + self.total_beads_blocked <= u32::MAX,
        ensures
            r == self.total_beads_done + self.total_beads_open + self.total_beads_progress
                + self.total_beads_blocked,
    {
        self.total_beads_done + self.total_beads_open + self.total_beads_progress
            + self.total_beads_blocked
    }

    /// Whether the dashboard flags trouble: a stuck agent or a blocked bead.
    pub fn has_trouble(&self) -> (b: bool)
        ensures
            b == (self.agents_stuck > 0 || self.total_beads_blocked > 0),
    {
        self.agents_stuck > 0 || self.total_beads_blocked > 0
    }
}

/// The dialog fits the screen and is centred on it: it is four cells
/// smaller than the screen in each direction but never larger than 50 by
/// 14 (nothing at all on a screen under four cells), it lies wholly on the
/// screen, and the space to its right (below it) is that to its left
/// (above it), or one cell more.
pub proof fn lemma_dialog_fits_and_centres(width: u16, height: u16)
    ensures
        ({
            let (x, y, w, h) = dialog_rect(width, height);
            &&& w == (if width < 4 { 0 } else if width - 4 < 50 { width - 4 } else { 50 })
            &&& h == (if height < 4 { 0 } else if height - 4 < 14 { height - 4 } else { 14 })
            &&& x + w <= width
            &&& y + h <= height
            &&& width - (x + w) == x || width - (x + w) == x + 1
            &&& height - (y + h) == y || height - (y + h) == y + 1
        }),
{
}

/// An uptime shows whole hours and the whole minutes left over: for `h`
/// hours, `m` minutes under sixty and `s` seconds under sixty, the text is
/// `{h}h {m}m`, and just `{m}m` when `h` is zero.
pub proof fn lemma_duration_hours_minutes(h: nat, m: nat, s: nat)
    requires
        m < 60,
        s < 60,
        3600 * h + 60 * m + s <= u64::MAX,
    ensures
        h > 0 ==> duration_text((3600 * h + 60 * m + s) as u64) == decimal(h) + "h "@
            + decimal(m) + "m"@,
        h == 0 ==> duration_text((3600 * h + 60 * m + s) as u64) == decimal(m) + "m"@,
{
    let secs: int = (3600 * h + 60 * m + s) as int;
    assert(secs / 3600 == h && secs % 3600 == 60 * m + s) by (nonlinear_arith)
        requires
            secs == 3600 * h + 60 * m + s,
            m < 60,
            s < 60,
            h >= 0,
    ;
    assert((60 * m + s) / 60 == m) by (nonlinear_arith)
        requires
            s < 60,
            m >= 0,
    ;
}

/// The spinner turns through its four frames, each shown for two ticks:
/// two ticks that differ only in the lowest bit show the same frame, the
/// frame two ticks on is a different one, and eight ticks on it is the
/// same again.
pub proof fn lemma_spinner_cycle(k: u64)
    requires
        2 * k + 9 <= usize::MAX,
    ensures
        spinner_char((2 * k) as u64) == spinner_char((2 * k + 1) as u64),
        spinner_char(k) != spinner_char((k + 2) as u64),
        spinner_char(k) == spinner_char((k + 8) as u64),
{
    let a: int = k as int;
    assert((2 * a) / 2 == a && (2 * a + 1) / 2 == a) by (nonlinear_arith);
    assert((a + 2) / 2 == a / 2 + 1 && (a + 8) / 2 == a / 2 + 4) by (nonlinear_arith)
        requires
            a >= 0,
    ;
    assert((a / 2 + 1) % 4 != (a / 2) % 4 && (a / 2 + 4) % 4 == (a / 2) % 4) by (nonlinear_arith)
        requires
            a >= 0,
    ;
}

} // verus!
