use std::cell::RefCell;
use std::rc::Rc;

use feline::bank::{App, ApplicationBank, BankError};

/// A test application that records what the bank asks of it.
struct Probe {
    name: u32,
    log: Rc<RefCell<Vec<String>>>,
    fail_init: bool,
    fail_deinit: bool,
    close: bool,
}

impl Probe {
    fn new(name: u32, log: &Rc<RefCell<Vec<String>>>) -> Probe {
        Probe { name, log: log.clone(), fail_init: false, fail_deinit: false, close: false }
    }
}

impl App for Probe {
    type Context = u32;
    type Region = (u32, u32);
    type Error = String;

    fn render(&mut self, ctx: &u32) -> Option<(u32, u32)> {
        self.log.borrow_mut().push(format!("render {}", self.name));
        if self.name % 2 == 0 {
            Some((self.name, *ctx))
        } else {
            None
        }
    }

    fn init(&mut self) -> Result<(), String> {
        self.log.borrow_mut().push(format!("init {}", self.name));
        if self.fail_init {
            Err(format!("init {} failed", self.name))
        } else {
            Ok(())
        }
    }

    fn deinit(&mut self) -> Result<(), String> {
        self.log.borrow_mut().push(format!("deinit {}", self.name));
        if self.fail_deinit {
            Err(format!("deinit {} failed", self.name))
        } else {
            Ok(())
        }
    }

    fn should_close(&self) -> bool {
        self.close
    }
}

fn log() -> Rc<RefCell<Vec<String>>> {
    Rc::new(RefCell::new(Vec::new()))
}

#[test]
fn register_hands_out_consecutive_ids() {
    let log = log();
    let mut bank = ApplicationBank::new();
    assert!(bank.has_id_space());
    assert_eq!(bank.register(Probe::new(10, &log)).ok(), Some(0));
    assert_eq!(bank.register(Probe::new(11, &log)).ok(), Some(1));
    assert_eq!(bank.register(Probe::new(12, &log)).ok(), Some(2));
    assert_eq!(*log.borrow(), vec!["init 10", "init 11", "init 12"]);
}

#[test]
fn failed_init_registers_nothing() {
    let log = log();
    let mut bank = ApplicationBank::new();
    let mut bad = Probe::new(7, &log);
    bad.fail_init = true;
    match bank.register(bad) {
        Err(BankError::Init(msg)) => assert_eq!(msg, "init 7 failed"),
        _ => panic!("expected an init error"),
    }
    // the id was not consumed
    assert_eq!(bank.register(Probe::new(8, &log)).ok(), Some(0));
    let mut rects = Vec::new();
    bank.render(&5, &mut rects);
    assert_eq!(rects.len(), 1);
    assert_eq!(*log.borrow(), vec!["init 7", "init 8", "render 8"]);
}

#[test]
fn unregister_moves_last_into_place_and_reuses_id() {
    let log = log();
    let mut bank = ApplicationBank::new();
    for name in [20, 21, 22, 23] {
        bank.register(Probe::new(name, &log)).ok().unwrap();
    }
    assert!(bank.unregister(1).is_ok());
    log.borrow_mut().clear();
    let mut rects = Vec::new();
    bank.render(&9, &mut rects);
    // the last application (23) took the place of the removed one (21)
    assert_eq!(*log.borrow(), vec!["render 20", "render 23", "render 22"]);
    assert_eq!(rects, vec![Some((20, 9)), None, Some((22, 9))]);
    // the freed id is handed out next
    assert_eq!(bank.register(Probe::new(24, &log)).ok(), Some(1));
    // then fresh ids again
    assert_eq!(bank.register(Probe::new(25, &log)).ok(), Some(4));
}

#[test]
fn unregister_unknown_id_fails_and_changes_nothing() {
    let log = log();
    let mut bank = ApplicationBank::new();
    bank.register(Probe::new(30, &log)).ok().unwrap();
    match bank.unregister(5) {
        Err(BankError::NoApplication(id)) => assert_eq!(id, 5),
        _ => panic!("expected NoApplication"),
    }
    assert!(bank.unregister(0).is_ok());
    match bank.unregister(0) {
        Err(BankError::NoApplication(id)) => assert_eq!(id, 0),
        _ => panic!("expected NoApplication"),
    }
    assert_eq!(*log.borrow(), vec!["init 30", "deinit 30"]);
}

#[test]
fn failed_deinit_still_removes() {
    let log = log();
    let mut bank = ApplicationBank::new();
    let mut app = Probe::new(40, &log);
    app.fail_deinit = true;
    bank.register(app).ok().unwrap();
    match bank.unregister(0) {
        Err(BankError::Deinit(msg)) => assert_eq!(msg, "deinit 40 failed"),
        _ => panic!("expected Deinit"),
    }
    assert!(matches!(bank.unregister(0), Err(BankError::NoApplication(0))));
}

#[test]
fn render_resizes_rects_to_one_per_app() {
    let log = log();
    let mut bank = ApplicationBank::new();
    let mut rects: Vec<Option<(u32, u32)>> = vec![Some((1, 1)); 5];
    bank.render(&1, &mut rects);
    assert!(rects.is_empty());
    bank.register(Probe::new(2, &log)).ok().unwrap();
    bank.register(Probe::new(3, &log)).ok().unwrap();
    bank.render(&7, &mut rects);
    assert_eq!(rects, vec![Some((2, 7)), None]);
}

#[test]
fn closing_apps_are_collected() {
    let log = log();
    let mut bank = ApplicationBank::new();
    bank.register(Probe::new(50, &log)).ok().unwrap();
    let mut closing = Probe::new(51, &log);
    closing.close = true;
    bank.register(closing).ok().unwrap();
    bank.register(Probe::new(52, &log)).ok().unwrap();
    let mut rects = Vec::new();
    bank.render(&0, &mut rects);
    let errors = bank.garbage_collect();
    assert!(errors.is_empty());
    log.borrow_mut().clear();
    bank.render(&0, &mut rects);
    assert_eq!(*log.borrow(), vec!["render 50", "render 52"]);
    assert_eq!(rects.len(), 2);
    // the collected id is reused
    assert_eq!(bank.register(Probe::new(53, &log)).ok(), Some(1));
    // nothing left to collect
    assert!(bank.garbage_collect().is_empty());
}

#[test]
fn rendering_twice_before_collection_reports_the_duplicate() {
    let log = log();
    let mut bank = ApplicationBank::new();
    let mut closing = Probe::new(61, &log);
    closing.close = true;
    bank.register(closing).ok().unwrap();
    let mut rects = Vec::new();
    bank.render(&0, &mut rects);
    bank.render(&0, &mut rects);
    let errors = bank.garbage_collect();
    assert_eq!(errors.len(), 1);
    assert!(matches!(errors[0], (0, BankError::NoApplication(0))));
}

#[test]
fn collection_reports_failed_deinit() {
    let log = log();
    let mut bank = ApplicationBank::new();
    let mut closing = Probe::new(71, &log);
    closing.close = true;
    closing.fail_deinit = true;
    bank.register(closing).ok().unwrap();
    let mut rects = Vec::new();
    bank.render(&0, &mut rects);
    let errors = bank.garbage_collect();
    assert_eq!(errors.len(), 1);
    assert!(matches!(&errors[0], (0, BankError::Deinit(msg)) if msg == "deinit 71 failed"));
    assert!(matches!(bank.unregister(0), Err(BankError::NoApplication(0))));
}

#[test]
fn default_app_methods() {
    struct Plain;
    impl App for Plain {
        type Context = ();
        type Region = ();
        type Error = ();
        fn render(&mut self, _ctx: &()) -> Option<()> {
            Some(())
        }
    }
    let mut p = Plain;
    assert!(p.init().is_ok());
    assert!(p.deinit().is_ok());
    assert!(!p.should_close());
    let mut bank = ApplicationBank::new();
    assert_eq!(bank.register(Plain).ok(), Some(0));
    let mut rects = Vec::new();
    bank.render(&(), &mut rects);
    assert_eq!(rects, vec![Some(())]);
    assert!(bank.garbage_collect().is_empty());
}

#[test]
fn unregistering_the_newest_restores_the_bank() {
    let log = log();
    let mut bank = ApplicationBank::new();
    bank.register(Probe::new(80, &log)).ok().unwrap();
    bank.register(Probe::new(81, &log)).ok().unwrap();
    let id = bank.register(Probe::new(82, &log)).ok().unwrap();
    assert_eq!(id, 2);
    assert!(bank.unregister(id).is_ok());
    log.borrow_mut().clear();
    let mut rects = Vec::new();
    bank.render(&0, &mut rects);
    assert_eq!(*log.borrow(), vec!["render 80", "render 81"]);
    // the same id is handed out next
    assert_eq!(bank.register(Probe::new(83, &log)).ok(), Some(2));
}

#[test]
fn default_bank_is_empty() {
    let log = log();
    let mut bank: ApplicationBank<Probe> = Default::default();
    let mut rects = vec![None, None];
    bank.render(&0, &mut rects);
    assert!(rects.is_empty());
    assert_eq!(bank.register(Probe::new(90, &log)).ok(), Some(0));
}

#[test]
fn enroll_follows_the_init_outcome() {
    let log = log();
    let mut bank = ApplicationBank::new();
    assert_eq!(bank.enroll(Probe::new(1, &log), Ok(())).ok(), Some(0));
    match bank.enroll(Probe::new(2, &log), Err("refused".to_string())) {
        Err(BankError::Init(msg)) => assert_eq!(msg, "refused"),
        _ => panic!("expected Init"),
    }
    assert_eq!(bank.enroll(Probe::new(3, &log), Ok(())).ok(), Some(1));
    // enroll does not call init itself
    assert!(log.borrow().is_empty());
}

#[test]
fn detach_hands_back_the_app_without_deinit() {
    let log = log();
    let mut bank = ApplicationBank::new();
    bank.register(Probe::new(5, &log)).ok().unwrap();
    bank.register(Probe::new(6, &log)).ok().unwrap();
    let app = match bank.detach(0) {
        Ok(app) => app,
        Err(_) => panic!("expected the app"),
    };
    assert_eq!(app.name, 5);
    assert!(matches!(bank.detach(0), Err(BankError::NoApplication(0))));
    assert_eq!(*log.borrow(), vec!["init 5", "init 6"]);
    assert_eq!(bank.register(Probe::new(7, &log)).ok(), Some(0));
}

#[test]
fn deinit_result_maps_the_outcome() {
    assert!(feline::bank::deinit_result::<String>(Ok(())).is_ok());
    match feline::bank::deinit_result(Err("bad".to_string())) {
        Err(BankError::Deinit(msg)) => assert_eq!(msg, "bad"),
        _ => panic!("expected Deinit"),
    }
}
