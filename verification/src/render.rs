//! Assembling one formatted listing line from a directory entry's raw
//! attributes: permission string, link count, owner, group, scaled
//! size, modification time and name, separated by single spaces, with
//! a trailing `/` on directories.

use vstd::prelude::*;

verus! {

use vstd::string::StringExecFns;
use crate::digits::dec_digits;
use crate::digits::u64_to_dec;
use crate::ident::IdentityResolver;
use crate::ident::display_of;
use crate::ident::resolve_user_name;
use crate::ident::resolve_group_name;
use crate::mode::mode_to_string;
use crate::mode::spec_mode_string;
use crate::size::Size;
use crate::size::size_display_spec;

/// The last second of year 9999, the upper bound this library accepts
/// for a modification timestamp (seconds since the Unix epoch).
pub const MAX_TIMESTAMP_SECS: i64 = 253402300799;

/// The rendered calendar text for a modification timestamp: month
/// abbreviation, blank-padded day, year, and hour:minute.
pub uninterp spec fn timestamp_text(secs: int) -> Seq<char>;

/// Relies on chrono's `DateTime::<Utc>::from_timestamp`, documented to
/// return `Some` for every second count whose day fits the supported
/// calendar range (which covers everything up to year 9999), and on
/// `DateTime::format`, whose output for this fixed format string is a
/// function of the timestamp alone: abbreviated month name,
/// blank-padded day of month, year, and 24-hour hour:minute.
#[verifier::external_body]
fn format_timestamp(secs: i64) -> (r: String)
    requires
        0 <= secs <= MAX_TIMESTAMP_SECS,
    ensures
        r@ == timestamp_text(secs as int),
{
    let dt = chrono::DateTime::<chrono::Utc>::from_timestamp(secs, 0).unwrap();
    dt.format("%b %_d %G %H:%M").to_string()
}

/// The rendered text of the modification-time column.
pub fn modified_time_text(secs: i64) -> (r: String)
    requires
        0 <= secs <= MAX_TIMESTAMP_SECS,
    ensures
        r@ == timestamp_text(secs as int),
{
    format_timestamp(secs)
}

/// One listing line: the fields in fixed order, single spaces between
/// them, and a trailing slash when the entry is a directory.
pub open spec fn line_text(
    perm: Seq<char>,
    links: nat,
    user: Seq<char>,
    group: Seq<char>,
    size_text: Seq<char>,
    time: Seq<char>,
    name: Seq<char>,
    is_dir: bool,
) -> Seq<char> {
    perm + seq![' '] + dec_digits(links) + seq![' '] + user + seq![' '] + group + seq![' ']
        + size_text + seq![' '] + time + seq![' '] + name + (if is_dir {
        seq!['/']
    } else {
        Seq::<char>::empty()
    })
}

/// Joins already-rendered fields into one listing line.
pub fn format_entry_line(
    perm: &str,
    hard_links: u64,
    user: &str,
    group: &str,
    size_text: &str,
    time: &str,
    name: &str,
    is_dir: bool,
) -> (r: String)
    ensures
        r@ == line_text(perm@, hard_links as nat, user@, group@, size_text@, time@, name@, is_dir),
{
    proof {
        reveal_strlit(" ");
        reveal_strlit("/");
    }
    let links = u64_to_dec(hard_links);
    let mut out = String::new();
    out.append(perm);
    out.append(" ");
    out.append(links.as_str());
    out.append(" ");
    out.append(user);
    out.append(" ");
    out.append(group);
    out.append(" ");
    out.append(size_text);
    out.append(" ");
    out.append(time);
    out.append(" ");
    out.append(name);
    if is_dir {
        out.append("/");
    }
    proof {
        assert(out@ =~= line_text(
            perm@,
            hard_links as nat,
            user@,
            group@,
            size_text@,
            time@,
            name@,
            is_dir,
        ));
    }
    out
}

/// Renders one directory entry from its raw attributes; every column
/// is pinned, the owner and group ones through the resolver's own view
/// of its database (with the decimal id standing in for a missing
/// entry).
pub fn render_entry<R: IdentityResolver>(
    resolver: &R,
    mode_bits: u32,
    hard_links: u64,
    uid: u32,
    gid: u32,
    size_bytes: u64,
    modified_secs: i64,
    name: &str,
    is_dir: bool,
) -> (r: String)
    requires
        0 <= modified_secs <= MAX_TIMESTAMP_SECS,
    ensures
        r@ == line_text(
            spec_mode_string(mode_bits),
            hard_links as nat,
            display_of(uid, resolver.user_name_of(uid)),
            display_of(gid, resolver.group_name_of(gid)),
            size_display_spec(size_bytes as nat),
            timestamp_text(modified_secs as int),
            name@,
            is_dir,
        ),
{
    let perm = mode_to_string(mode_bits);
    let user = resolve_user_name(resolver, uid);
    let group = resolve_group_name(resolver, gid);
    let size_text = Size::from_bytes(size_bytes).to_display_string();
    let time_text = modified_time_text(modified_secs);
    let line = format_entry_line(
        perm.as_str(),
        hard_links,
        user.as_str(),
        group.as_str(),
        size_text.as_str(),
        time_text.as_str(),
        name,
        is_dir,
    );
    line
}

} // verus!
