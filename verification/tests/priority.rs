use nghttp3::error::ERR_INVALID_ARGUMENT;
use nghttp3::Priority;

fn parsed(value: &str) -> Option<(u32, bool)> {
    Priority::parse(value.as_bytes()).ok().map(|p| (p.urgency, p.incremental))
}

fn refused(value: &str) -> bool {
    match Priority::parse(value.as_bytes()) {
        Err(e) => e.code() == ERR_INVALID_ARGUMENT,
        Ok(_) => false,
    }
}

#[test]
fn priority_defaults_to_urgency_three_not_incremental() {
    let p = Priority::default();
    assert_eq!((p.urgency, p.incremental), (3, false));
    assert_eq!(parsed(""), Some((3, false)));
    assert_eq!(parsed("   "), Some((3, false)));
}

#[test]
fn priority_reads_urgency_and_incremental() {
    assert_eq!(parsed("u=5"), Some((5, false)));
    assert_eq!(parsed("u=0, i"), Some((0, true)));
    assert_eq!(parsed("i"), Some((3, true)));
    assert_eq!(parsed("i=?0"), Some((3, false)));
    assert_eq!(parsed("i=?1,u=7"), Some((7, true)));
    assert_eq!(parsed(" u=2 "), Some((2, false)));
    assert_eq!(parsed("u=2\t,\ti"), Some((2, true)));
}

#[test]
fn priority_later_members_override_earlier_ones() {
    assert_eq!(parsed("u=2, u=4"), Some((4, false)));
    assert_eq!(parsed("i, i=?0"), Some((3, false)));
}

#[test]
fn priority_ignores_other_members() {
    assert_eq!(parsed("foo=bar, u=1"), Some((1, false)));
    assert_eq!(parsed("x=(1 2 \"three\");p=?1, u=6"), Some((6, false)));
    assert_eq!(parsed("uu=9, ii=1"), Some((3, false)));
    assert_eq!(parsed("u=1;a=b;c"), Some((1, false)));
    assert_eq!(parsed("a=:YWJj:, b=:YWI=:, c=1.5, d=-12, e=@1659578233"), Some((3, false)));
    assert_eq!(parsed("a=\"q\\\"x\\\\\", b=%\"caf%c3%a9\", c=*tok/en:1"), Some((3, false)));
    assert_eq!(parsed("a=123456789012345, b=123456789012.123"), Some((3, false)));
}

#[test]
fn priority_refuses_out_of_place_values() {
    assert!(refused("u=8"));
    assert!(refused("u=-1"));
    assert!(refused("u=1.0"));
    assert!(refused("u=\"1\""));
    assert!(refused("u"));
    assert!(refused("u=(1)"));
    assert!(refused("i=1"));
    assert!(refused("i=?2"));
}

#[test]
fn priority_refuses_malformed_dictionaries() {
    assert!(refused("u=2,"));
    assert!(refused(",u=2"));
    assert!(refused("U=2"));
    assert!(refused("\tu=2"));
    assert!(refused("u=2 i"));
    assert!(refused("a=1234567890123456"));
    assert!(refused("a=1234567890123.1"));
    assert!(refused("a=1.1234"));
    assert!(refused("a=1."));
    assert!(refused("a=(1 2"));
    assert!(refused("a=(1,2)"));
    assert!(refused("a=\"unterminated"));
    assert!(refused("a=\"bad\\n\""));
    assert!(refused("a=:Y:"));
    assert!(refused("a=:YW=j:"));
    assert!(refused("a=%\"%ff\""));
    assert!(refused("a=%\"%C3\""));
    assert!(refused("a=@1.5"));
    assert!(refused("a=#"));
}

#[test]
fn priority_failure_anywhere_refuses_the_whole_value() {
    assert!(refused("u=9, a=1"));
    assert!(refused("u=1, a=#"));
}
