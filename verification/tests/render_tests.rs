use lslong::ident::FakeResolver;
use lslong::render::format_entry_line;
use lslong::render::modified_time_text;
use lslong::render::render_entry;

#[test]
fn epoch_renders_as_calendar_text() {
    assert_eq!(modified_time_text(0), "Jan  1 1970 00:00");
}

#[test]
fn known_timestamp_renders_as_calendar_text() {
    // 2015-05-15 00:00:00 UTC.
    assert_eq!(modified_time_text(1431648000), "May 15 2015 00:00");
}

#[test]
fn fields_are_joined_with_single_spaces() {
    let line = format_entry_line(
        "-rw-r--r--",
        1,
        "alice",
        "staff",
        " 512",
        "Jan  1 1970 00:00",
        "notes.txt",
        false,
    );
    assert_eq!(line, "-rw-r--r-- 1 alice staff  512 Jan  1 1970 00:00 notes.txt");
}

#[test]
fn directories_get_a_trailing_slash() {
    let line = format_entry_line(
        "drwxr-xr-x",
        2,
        "root",
        "root",
        "4.0K",
        "May 15 2015 00:00",
        "etc",
        true,
    );
    assert_eq!(line, "drwxr-xr-x 2 root root 4.0K May 15 2015 00:00 etc/");
}

#[test]
fn render_entry_assembles_a_regular_file_line() {
    let resolver = FakeResolver {
        users: vec![(1000, String::from("alice"))],
        groups: vec![(50, String::from("staff"))],
    };
    let line = render_entry(&resolver, 0o100644, 1, 1000, 50, 512, 0, "notes.txt", false);
    assert_eq!(line, "-rw-r--r-- 1 alice staff  512 Jan  1 1970 00:00 notes.txt");
}

#[test]
fn render_entry_assembles_a_directory_line() {
    let resolver = FakeResolver { users: vec![], groups: vec![] };
    let line = render_entry(&resolver, 0o040755, 2, 0, 0, 4096, 1431648000, "etc", true);
    assert_eq!(line, "drwxr-xr-x 2 0 0 4.0K May 15 2015 00:00 etc/");
}
