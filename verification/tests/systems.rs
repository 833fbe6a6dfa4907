use sourcetrait::greensys::{control_action, ControlAction, ResumeAction, StopPlan, StopRequestAction, SystemState};
use sourcetrait::channel::{InternalChannel, SysIo};
use sourcetrait::osable::{effective_groupname, effective_username, lookup_step, sysconf_size, LookupStep, OsableError};
use sourcetrait::stdx::{Either, FsErrMsg};
use sourcetrait::subsys::{Flow, NotReady, Status, StatusChange, SubsysError, Success};
use sourcetrait::sysgreen::{Control, MsgIdSource, Packet, PacketNature};

#[test]
fn packets() {
    let mut ids = MsgIdSource::new();
    let a = Packet::request(&mut ids, "ping");
    let b = a.respond(&mut ids, 7u8);
    assert!(a.is_request() && !a.is_singular());
    assert!(b.is_response());
    assert_eq!(b.nature, PacketNature::Response(a.id()));
    assert_ne!(a.id(), b.id());
    assert_eq!(a.id(), 1);
    assert_eq!(*b.msg(), 7);
    assert_eq!(b.id(), 2);
    let s = Packet::singular(&mut ids, ());
    assert!(s.is_singular());
    assert_eq!(s.id(), 3);
    let r = Packet::response(&mut ids, 42, 'x');
    assert_eq!(r.id(), 4);
    assert_eq!(ids.next_id(), 5);
    assert_eq!(r.nature, PacketNature::response(42));
    assert_eq!(Packet::new(5, PacketNature::Request, 1).into_tuple(), (5, PacketNature::Request, 1));
}

#[test]
fn subsystem_errors() {
    assert!(matches!(SubsysError::channel_closed(), SubsysError::ChannelClosed));
    assert!(matches!(SubsysError::err_channel_closed::<u8>(), Err(SubsysError::ChannelClosed)));
    let e = SubsysError::into_io(std::io::Error::new(std::io::ErrorKind::Other, "x"));
    assert!(matches!(e, SubsysError::IO { .. }));
    assert!(e.message().is_none());
    assert_eq!(SubsysError::Fatal.message(), Some("Sub-system failed".to_string()));
    assert!(matches!(SubsysError::err_into_io::<(), _>(std::io::ErrorKind::NotFound), Err(SubsysError::IO { .. })));
    assert!(matches!(Flow::<u8>::from_success(Success), Flow::Continue));
    let c = StatusChange(Status::NotReady(NotReady::Stop { halt: true }));
    assert_eq!(c.0, Status::NotReady(NotReady::Stop { halt: true }));
    let _ = Control::Stop { halt: false };
}

#[test]
fn os_decisions() {
    assert_eq!(effective_username(Ok(Some("me".into()))).unwrap(), "me");
    assert!(matches!(effective_username(Ok(None)), Err(OsableError::NotFound)));
    assert!(matches!(effective_groupname(Err(OsableError::Utf8)), Err(OsableError::Utf8)));
    assert_eq!(sysconf_size(-1), 1024);
    assert_eq!(sysconf_size(0), 1024);
    assert_eq!(sysconf_size(4096), 4096);
    assert_eq!(lookup_step(16, 0, false, libc::ERANGE), LookupStep::Found);
    assert_eq!(lookup_step(16, 0, true, libc::ERANGE), LookupStep::Missing);
    assert_eq!(lookup_step(16, libc::ERANGE, true, libc::ERANGE), LookupStep::Retry(32));
    assert_eq!(lookup_step(16, libc::EIO, true, libc::ERANGE), LookupStep::Fail(libc::EIO));
    assert!(matches!(OsableError::libc(libc::EIO), OsableError::Libc { .. }));
    assert!(matches!(OsableError::err_libc::<()>(libc::EIO), Err(OsableError::Libc { .. })));
    assert!(matches!(OsableError::libc_last(), OsableError::Libc { .. }));
}

#[test]
fn either_and_messages() {
    let a: Either<u8, &str> = Either::A(1);
    assert!(a.is_a() && !a.is_b());
    assert!(Either::<u8, &str>::B("x").is_b());
    assert_eq!(FsErrMsg::ReadFile("RON").to_string(), "Unable to read from RON file");
    assert_eq!(FsErrMsg::AccessFile("RON").to_string(), "No permission to access RON file");
    assert_eq!(FsErrMsg::WriteFile("TOML").to_string(), "Unable to write to TOML file");
    assert_eq!(FsErrMsg::CreateDir.to_string(), "Unable to create directory");
}

#[test]
fn channels_cross() {
    let (mut inner, (tx, mut rx)) = InternalChannel::<u8, char>::new_pair(4);
    inner.tx.try_send(7).unwrap();
    assert_eq!(rx.try_recv().unwrap(), 7);
    tx.try_send('k').unwrap();
    assert_eq!(inner.rx.try_recv().unwrap(), 'k');
    assert!(!inner.cancel.is_cancelled());
    let (mut sys, mut other) = SysIo::new_channel(2);
    assert!(!sys.is_stdio());
    assert!(SysIo::Stdio.is_stdio());
    // each side's output queue feeds that same side's input queue
    other.output.try_send("line".to_string()).unwrap();
    assert_eq!(other.input.try_recv().unwrap(), "line");
    match &mut sys {
        SysIo::LineChannel(c) => {
            c.output.try_send("back".to_string()).unwrap();
            assert_eq!(c.input.try_recv().unwrap(), "back");
        }
        SysIo::Stdio => panic!(),
    }
}

#[test]
fn green_system_decisions() {
    let mut s = SystemState::started();
    assert!(s.is_not_ready() && !s.is_paused());
    assert_eq!(s.status_not_ready(), Some(NotReady::Normal));
    assert_eq!(s.status_stop(), None);
    assert_eq!(s.stop_plan(true), StopPlan { prepare: true, call_on_stop: true, halt: true });
    assert_eq!(s.stop_plan(false), StopPlan { prepare: true, call_on_stop: false, halt: true });
    assert_eq!(s.prepare_stop(false, false), Some(Status::NotReady(NotReady::Stop { halt: false })));
    assert_eq!(s.status_stop(), Some(false));
    assert_eq!(s.stop_request_action(false), StopRequestAction::AlreadyStopping);
    assert_eq!(s.stop_request_action(true), StopRequestAction::Stop { halt: true });
    assert_eq!(s.stop_plan(true), StopPlan { prepare: false, call_on_stop: true, halt: false });
    assert!(s.halt(false));
    assert!(!s.running);
    assert_eq!(s.stop_plan(true), StopPlan { prepare: false, call_on_stop: false, halt: false });
    assert!(!s.halt(false));
    let mut p = SystemState { running: true, status: Status::NotReady(NotReady::Pause) };
    assert_eq!(p.resume_action(), ResumeAction::AskSystem);
    assert!(p.resume_with(true).is_ok());
    assert_eq!(p.status, Status::Ready);
    assert_eq!(p.resume_action(), ResumeAction::NotPaused);
    assert!(p.resume_with(false).is_err());
    assert_eq!(p.status, Status::NotReady(NotReady::Normal));
    assert_eq!(p.prepare_stop(true, false), None);
    assert_eq!(control_action(Control::Resume), ControlAction::Resume);
    assert_eq!(control_action(Control::Stop { halt: true }), ControlAction::Stop { halt: true });
    assert_eq!(control_action(Control::Drain), ControlAction::Unsupported(Control::Drain));
}
