use blightmud::tools::util::expand_tilde;

#[test]
fn homedir_expansion() {
    assert_eq!("/home/what/blightmud", expand_tilde("~/blightmud", "/home/what"));
    assert_eq!("/Users/cindi/blightmud/data", expand_tilde("~/blightmud/data", "/Users/cindi"));
    assert_eq!("/leave/it/alone", expand_tilde("/leave/it/alone", "/Users/cindi"));
    assert_eq!("/leave/~/alone", expand_tilde("/leave/~/alone", "/Users/cindi"));
}

#[test]
fn tilde_alone_is_home() {
    assert_eq!("/home/what", expand_tilde("~", "/home/what"));
    assert_eq!("", expand_tilde("", "/home/what"));
}
