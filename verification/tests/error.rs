use termecho::error::{Error, ENOTTY, EPERM};

#[test]
fn error_numbers_are_the_systems_own() {
    assert_eq!(EPERM, libc::EPERM);
    assert_eq!(ENOTTY, libc::ENOTTY);
    assert_eq!(EPERM, nix::errno::Errno::EPERM as i32);
    assert_eq!(ENOTTY, nix::errno::Errno::ENOTTY as i32);
}

#[test]
fn from_errno_permission_denied() {
    assert_eq!(Error::from_errno(1), Error::PermissionDenied);
    assert_eq!(Error::from_errno(libc::EPERM), Error::PermissionDenied);
}

#[test]
fn from_errno_not_a_terminal() {
    assert_eq!(Error::from_errno(25), Error::NotATerminal);
    assert_eq!(Error::from_errno(libc::ENOTTY), Error::NotATerminal);
}

#[test]
fn from_errno_other_codes_are_carried() {
    assert_eq!(Error::from_errno(libc::EIO), Error::OsError(libc::EIO));
    assert_eq!(Error::from_errno(5), Error::OsError(5));
    assert_eq!(Error::from_errno(libc::EBADF), Error::OsError(9));
    assert_eq!(Error::from_errno(0), Error::OsError(0));
    assert_eq!(Error::from_errno(2), Error::OsError(2));
    assert_eq!(Error::from_errno(24), Error::OsError(24));
    assert_eq!(Error::from_errno(26), Error::OsError(26));
    assert_eq!(Error::from_errno(-1), Error::OsError(-1));
    assert_eq!(Error::from_errno(i32::MAX), Error::OsError(i32::MAX));
    assert_eq!(Error::from_errno(i32::MIN), Error::OsError(i32::MIN));
}

#[test]
fn from_errno_never_gives_the_other_outcomes() {
    for code in -300..300 {
        let e = Error::from_errno(code);
        assert_ne!(e, Error::InvalidPayload);
        assert_ne!(e, Error::IOError);
        match e {
            Error::PermissionDenied => assert_eq!(code, 1),
            Error::NotATerminal => assert_eq!(code, 25),
            Error::OsError(c) => assert_eq!(c, code),
            _ => unreachable!(),
        }
    }
}

#[test]
fn from_errno_of_every_error_number_of_the_system() {
    for code in 1..134 {
        let errno = nix::errno::Errno::from_raw(code);
        let expected = match errno {
            nix::errno::Errno::EPERM => Error::PermissionDenied,
            nix::errno::Errno::ENOTTY => Error::NotATerminal,
            _ => Error::OsError(code),
        };
        assert_eq!(Error::from_errno(code), expected);
    }
}

#[test]
fn os_code_only_for_os_errors() {
    assert_eq!(Error::OsError(5).os_code(), Some(5));
    assert_eq!(Error::OsError(-7).os_code(), Some(-7));
    assert_eq!(Error::InvalidPayload.os_code(), None);
    assert_eq!(Error::IOError.os_code(), None);
    assert_eq!(Error::PermissionDenied.os_code(), None);
    assert_eq!(Error::NotATerminal.os_code(), None);
}

#[test]
fn messages() {
    assert_eq!(Error::InvalidPayload.message(), "command contains a nul character");
    assert_eq!(Error::IOError.message(), "error opening device");
    assert_eq!(Error::PermissionDenied.message(), "cannot write — are you root?");
    assert_eq!(Error::NotATerminal.message(), "not a TTY/PTY");
    assert_eq!(Error::OsError(5).message(), "unable to write");
    assert_eq!(Error::OsError(5).message(), Error::OsError(6).message());
}
