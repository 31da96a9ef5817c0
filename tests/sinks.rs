use std::cell::RefCell;

use htrace::context::Context;
use htrace::level::Level;
use htrace::module_abstract::{module_name_set, ModuleAbstract};
use htrace::trace::OneTrace;
use htrace::Errors;

struct Recorder {
    name: String,
    calls: RefCell<Vec<&'static str>>,
}

impl Recorder {
    fn new() -> Recorder {
        Recorder { name: String::new(), calls: RefCell::new(vec![]) }
    }

    fn note(&self, what: &'static str) {
        self.calls.borrow_mut().push(what);
    }
}

impl ModuleAbstract for Recorder {
    fn name_set(&mut self, moduleName: String) -> Result<(), anyhow::Error> {
        if moduleName.is_empty() {
            return Err(anyhow::Error::msg("empty name"));
        }
        self.name = moduleName;
        Ok(())
    }

    fn name_get(&self) -> Result<String, anyhow::Error> {
        Ok(self.name.clone())
    }

    fn event_onDebug(&self, _: &OneTrace) {
        self.note("debug");
    }

    fn event_onDebugErr(&self, _: &OneTrace) {
        self.note("debugerr");
    }

    fn event_onNormal(&self, _: &OneTrace) {
        self.note("normal");
    }

    fn event_onNotice(&self, _: &OneTrace) {
        self.note("notice");
    }

    fn event_onNoticeErr(&self, _: &OneTrace) {
        self.note("noticeerr");
    }

    fn event_onWarning(&self, _: &OneTrace) {
        self.note("warning");
    }

    fn event_onError(&self, _: &OneTrace) {
        self.note("error");
    }

    fn event_onFatal(&self, _: &OneTrace) {
        self.note("fatal");
    }

    fn event_onContextExit(&self, _: &Context) {
        self.note("exit");
    }

    fn event_onGlobalExit(&self) {
        self.note("global");
    }
}

#[test]
fn each_level_reaches_its_own_callback() {
    let levels = [
        Level::DEBUG,
        Level::DEBUGERR,
        Level::NORMAL,
        Level::NOTICE,
        Level::NOTICEDERR,
        Level::WARNING,
        Level::ERROR,
        Level::FATAL,
    ];
    let sink = Recorder::new();
    for level in levels {
        let t = OneTrace {
            message: String::new(),
            date: 0,
            level,
            context: Context::default(),
            filename: String::new(),
            fileline: 0,
            backtraces: vec![],
        };
        Level::launchModuleFunc(&sink, &t);
    }
    assert_eq!(
        *sink.calls.borrow(),
        vec!["debug", "debugerr", "normal", "notice", "noticeerr", "warning", "error", "fatal"]
    );
}

#[test]
fn a_sink_that_refuses_its_name_gives_a_tagged_error() {
    let mut sink = Recorder::new();
    assert!(module_name_set(&mut sink, "cmd").is_ok());
    assert_eq!(sink.name_get().unwrap(), "cmd");
    match module_name_set(&mut sink, "") {
        Err(Errors::ModuleConfigError(name, err)) => {
            assert_eq!(name, "");
            assert_eq!(err.to_string(), "empty name");
        }
        _ => panic!("expected a configuration error"),
    }
}
