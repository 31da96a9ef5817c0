use htrace::bridge::{
    event_message, span_path, FacadeLevel, HtraceBridge, HtraceBridgeSpanFilterList, HtraceToTracingLevelMapper,
    LogHtraceToLogLevelMapper, LogLevelToHtraceMapper, TracingLevelToHtraceMapper, Visitor,
};
use htrace::context::Context;
use htrace::context_manager::ContextManager;
use htrace::file_sink::{file_date_text, file_paths, trace_file_paths, FileConfig};
use htrace::formater::FormaterCompile;
use htrace::frames::{select_frames, RawSymbol};
use htrace::keyed::KeyedMap;
use htrace::level::Level;
use htrace::params::{message_of, FormaterParamBuilder};
use htrace::pipeline::{deliveries, make_trace, passes_level, prepare_trace, sort_by_date, DeferredTraces};
use htrace::span::Span;
use htrace::thread_manager::ThreadManager;
use htrace::trace::{Backtrace, Hbacktrace, OneTrace};

const ALL: [Level; 8] = [
    Level::DEBUG,
    Level::DEBUGERR,
    Level::NORMAL,
    Level::NOTICE,
    Level::NOTICEDERR,
    Level::WARNING,
    Level::ERROR,
    Level::FATAL,
];

fn params(entries: &[(&str, &str)]) -> KeyedMap<String> {
    let mut m = KeyedMap::new();
    for (k, v) in entries {
        m.insert(k.to_string(), v.to_string());
    }
    m
}

fn record(message: &str, date: i64, context: Context) -> OneTrace {
    OneTrace {
        message: message.to_string(),
        date,
        level: Level::NORMAL,
        context,
        filename: "src/main.rs".to_string(),
        fileline: 7,
        backtraces: vec![],
    }
}

fn sink_context(sink: u64) -> Context {
    let mut c = Context::default();
    c.module_add("out", sink);
    c
}

fn main_thread() -> Option<String> {
    Some("MAIN".to_string())
}

#[test]
fn level_names_codes_and_ranks() {
    let names = ["DEBUG", "DEBUGERR", "NORMAL", "NOTICE", "NOTICEDERR", "WARNING", "ERROR", "FATAL"];
    let codes = ["DBUG", "ERRD", "    ", "NOTI", "NOER", "WARN", "ERR ", "FATA"];
    for (i, l) in ALL.iter().enumerate() {
        assert_eq!(l.to_string(), names[i]);
        assert_eq!(l.convert4LengthString(), codes[i]);
        assert_eq!(l.tou8() as usize, i);
        assert_eq!(Level::from(i as u8), *l);
    }
    assert_eq!(Level::from(200u8), Level::FATAL);
    assert_eq!(Level::min(), Level::DEBUG);
    assert_eq!(Level::max(), Level::FATAL);
}

#[test]
fn level_filter_all_pairs() {
    for record_level in ALL.iter() {
        for min in ALL.iter() {
            let mut c = Context::default();
            c.level_setMin(Some(*min));
            assert_eq!(passes_level(*record_level, &c), record_level.tou8() >= min.tou8());
            let t = make_trace("m".to_string(), *record_level, c, "f.rs", 1, vec![]);
            assert_eq!(t.is_some(), record_level.tou8() >= min.tou8());
        }
        assert!(passes_level(*record_level, &Context::default()));
    }
}

#[test]
fn record_is_stamped_with_the_current_time() {
    let t = make_trace("now".to_string(), Level::NOTICE, Context::default(), "a.rs", 3, vec![]).unwrap();
    // 2020-01-01 00:00 UTC
    assert!(t.date > 1_577_836_800_000_000);
    assert_eq!(t.message, "now");
    assert_eq!(t.filename, "a.rs");
    assert_eq!(t.fileline, 3);
}

#[test]
fn template_affixes_and_unrecognized_text() {
    let c = FormaterCompile(&"[{lvl:<<}{msg:>!}]{bogus}{time:>}{extra[]}{line".to_string());
    let out = c.render(params(&[("lvl", "WARN"), ("msg", "hi")]));
    assert_eq!(out, "[<WARNhi!]{bogus}{time:>}{extra[]}{line");
}

#[test]
fn template_missing_parameters_render_empty() {
    let c = FormaterCompile(&"a{file:<(}b{context:>, }c".to_string());
    assert_eq!(c.render(params(&[])), "a(b, c");
    assert_eq!(c.inner.len(), 3);
    assert_eq!(c.inner[2].0, "c");
}

#[test]
fn template_without_placeholders_is_one_literal() {
    let c = FormaterCompile(&"".to_string());
    assert_eq!(c.inner.len(), 1);
    assert_eq!(c.render(params(&[])), "");
}

#[test]
fn message_line_breaks_are_folded_and_marked() {
    let m = message_of(&"a\r\nb\\n\\rc\rd\\re\\nf\ng".to_string(), &vec![], &" | ".to_string());
    let s: String = m.iter().collect();
    assert_eq!(s, "a\n | b\n | c\n | d\n | e\n | f\n | g");
}

#[test]
fn message_with_backtrace_frames() {
    let frames = vec![
        Hbacktrace { funcName: "main()".to_string(), fileName: Some("src/main.rs".to_string()), line: Some(12) },
        Hbacktrace { funcName: "run()".to_string(), fileName: None, line: Some(3) },
    ];
    let m = message_of(&"oops".to_string(), &frames, &"> ".to_string());
    let s: String = m.iter().collect();
    assert_eq!(s, "oops, with : \n> src/main.rs(12): main()\n> - run()");
    assert_eq!(Backtrace { funcName: "f()".to_string(), fileName: "x.rs".to_string(), line: 9 }.to_string(), "x.rs(9): f()");
}

#[test]
fn parameters_of_a_record() {
    let mut c = Context::for_thread(Some("worker".to_string()));
    c.name_set("span");
    c.extra_set("user", "ann");
    // 2023-11-14 22:13:20.123456 UTC
    let t = OneTrace {
        message: "x".to_string(),
        date: 1_700_000_000_123_456,
        level: Level::ERROR,
        context: c,
        filename: "f.rs".to_string(),
        fileline: 1234,
        backtraces: vec![],
    };
    let p = FormaterParamBuilder(&t, &" | ".to_string());
    let get = |k: &str| p.get(&k.to_string()).cloned();
    assert_eq!(get("time").unwrap(), "22:13:20.123456");
    assert_eq!(get("lvl").unwrap(), "ERR ");
    assert_eq!(get("thread").unwrap(), "worker");
    assert_eq!(get("context").unwrap(), "span");
    assert_eq!(get("file").unwrap(), "f.rs");
    assert_eq!(get("line").unwrap(), "1234");
    assert_eq!(get("msg").unwrap(), "x");
    assert_eq!(get("extra:user").unwrap(), "ann");
    assert_eq!(p.len(), 8);
}

#[test]
fn time_of_day_before_the_epoch() {
    let t = record("x", -1, Context::default());
    let p = FormaterParamBuilder(&t, &String::new());
    assert_eq!(p.get(&"time".to_string()).unwrap(), "23:59:59.999999");
    assert_eq!(p.get(&"thread".to_string()).unwrap(), "");
}

#[test]
fn resolution_overlays_the_stack() {
    let mut thread = ThreadManager::new();
    let mut m = ContextManager::new();
    let mut g = Context::default();
    g.module_add("cmd", 1);
    g.module_add("file", 2);
    g.level_setMin(Some(Level::NORMAL));
    g.extra_set("a", "1");
    m.globalContext_set(&mut thread, g);
    assert_eq!(thread.local_getName(), main_thread());

    let t = Some("worker".to_string());
    let plain = m.resolve(&t);
    assert_eq!(plain.threadName_get().clone(), t);
    assert_eq!(plain.level_getMin(), Some(Level::NORMAL));

    let mut child = Context::for_thread(t.clone());
    child.module_add("cmd", 3);
    child.level_setMin(Some(Level::WARNING));
    child.extra_set("b", "2");
    let id = m.add(&t, child);
    assert_eq!(id, 0);
    let r = m.resolve(&t);
    assert_eq!(r.live_sinks(), vec![3, 2]);
    assert_eq!(r.level_getMin(), Some(Level::WARNING));
    assert_eq!(r.extra_get("a").unwrap(), "1");
    assert_eq!(r.extra_get("b").unwrap(), "2");
    assert_eq!(m.global_sinks(), vec![1, 2]);
}

#[test]
fn discarding_a_sink_then_ending_the_span_restores_it() {
    let mut thread = ThreadManager::new();
    let mut m = ContextManager::new();
    let mut g = Context::default();
    g.module_add("cmd", 1);
    g.module_add("file", 2);
    m.globalContext_set(&mut thread, g);
    let me = thread.local_getName();

    let mut child = Context::default();
    child.module_discard("file");
    let span = Span::new(&mut m, &me, child);
    assert_eq!(m.resolve(&me).live_sinks(), vec![1]);

    let removed = span.close(&mut m);
    assert_eq!(removed.len(), 1);
    assert_eq!(m.resolve(&me).live_sinks(), vec![1, 2]);
}

#[test]
fn spans_ended_out_of_order_keep_the_stack_below() {
    let mut m = ContextManager::new();
    let t = Some("w".to_string());
    m.add(&t, Context::named(t.clone(), "base"));
    let a = Span::new(&mut m, &t, Context::named(t.clone(), "a"));
    let b = Span::new(&mut m, &t, Context::named(t.clone(), "b"));
    assert_eq!(a.close(&mut m).len(), 2);
    assert_eq!(b.close(&mut m).len(), 0);
    let left = m.remove(&t, 5);
    assert_eq!(left.len(), 0);
    // the base context is still there: removing from index 0 takes it
    assert_eq!(m.remove(&t, 0).len(), 1);
}

#[test]
fn the_global_context_is_never_removed() {
    let mut thread = ThreadManager::new();
    let mut m = ContextManager::new();
    let mut g = Context::default();
    g.module_add("cmd", 1);
    m.globalContext_set(&mut thread, g);
    let me = thread.local_getName();
    let _ = Span::new(&mut m, &me, Context::default());
    assert_eq!(m.remove(&me, 0).len(), 1);
    assert_eq!(m.remove(&me, 0).len(), 0);
    assert_eq!(m.resolve(&me).live_sinks(), vec![1]);
}

#[test]
fn an_unset_global_context_resolves_to_the_thread_name() {
    let m = ContextManager::new();
    let r = m.resolve(&None);
    assert_eq!(r.threadName_get().clone(), None);
    let r = m.resolve(&Some("x".to_string()));
    assert_eq!(r.threadName_get().clone(), Some("x".to_string()));
    assert!(r.live_sinks().is_empty());
}

#[test]
fn flush_orders_by_date_and_plans_deliveries() {
    let mut q = DeferredTraces::new();
    for (i, d) in [30i64, 10, 20, 10, 5].iter().enumerate() {
        q.push(record(&format!("r{}", i), *d, sink_context(7)));
    }
    let batch = q.take_batch();
    let dates: Vec<i64> = batch.iter().map(|t| t.date).collect();
    assert_eq!(dates, vec![5, 10, 10, 20, 30]);
    assert_eq!(q.len(), 0);
    let plan = deliveries(&batch);
    assert_eq!(plan, vec![(0, 7), (1, 7), (2, 7), (3, 7), (4, 7)]);
    let sorted = sort_by_date(vec![]);
    assert!(sorted.is_empty());
}

#[test]
fn shutdown_hands_out_every_pending_record_once() {
    let mut q = DeferredTraces::new();
    q.push(record("a", 2, Context::default()));
    let first = q.take_batch();
    assert_eq!(first.len(), 1);
    q.push(record("b", 9, Context::default()));
    q.push(record("c", 1, Context::default()));
    let last = q.shutdown();
    let msgs: Vec<&str> = last.iter().map(|t| t.message.as_str()).collect();
    assert_eq!(msgs, vec!["c", "b"]);
    assert_eq!(q.len(), 0);
    assert!(q.shutdown().is_empty());
}

#[test]
fn prepare_trace_uses_the_resolved_context() {
    let mut thread = ThreadManager::new();
    let mut m = ContextManager::new();
    let mut g = sink_context(4);
    g.level_setMin(Some(Level::NOTICE));
    m.globalContext_set(&mut thread, g);
    let me = thread.local_getName();
    assert!(prepare_trace(&m, &me, "low".to_string(), Level::NORMAL, "f.rs", 1, vec![]).is_none());
    let t = prepare_trace(&m, &me, "high".to_string(), Level::ERROR, "f.rs", 1, vec![]).unwrap();
    assert_eq!(t.context.live_sinks(), vec![4]);
    assert_eq!(t.context.threadName_get().clone(), main_thread());
}

#[test]
fn facade_level_tables() {
    let facade = [FacadeLevel::Error, FacadeLevel::Warn, FacadeLevel::Info, FacadeLevel::Debug, FacadeLevel::Trace];
    let levels = [Level::ERROR, Level::WARNING, Level::NOTICE, Level::NORMAL, Level::DEBUG];
    for i in 0..5 {
        assert_eq!(LogLevelToHtraceMapper(&facade[i]), levels[i]);
        assert_eq!(TracingLevelToHtraceMapper(&facade[i]), levels[i]);
        assert_eq!(LogHtraceToLogLevelMapper(&levels[i]), facade[i]);
        assert_eq!(HtraceToTracingLevelMapper(&levels[i]), facade[i]);
    }
    assert_eq!(LogHtraceToLogLevelMapper(&Level::DEBUGERR), FacadeLevel::Trace);
    assert_eq!(HtraceToTracingLevelMapper(&Level::NOTICEDERR), FacadeLevel::Info);
    assert_eq!(LogHtraceToLogLevelMapper(&Level::FATAL), FacadeLevel::Error);
}

#[test]
fn bridge_decisions() {
    let mut b = HtraceBridge::default();
    assert!(!b.isBacktrace(&Level::NOTICEDERR));
    assert!(b.isBacktrace(&Level::WARNING));
    assert!(b.isLog(&Level::DEBUG));
    b.tracing_min_level = Level::ERROR;
    assert!(!b.isTracing(&Level::WARNING));
    assert!(b.isTracing(&Level::FATAL));
    b.min_level_backtrace = None;
    assert!(!b.isBacktrace(&Level::FATAL));
    assert!(b.span_allowed(&Some("x".to_string())));
    b.tracing_filter_span = HtraceBridgeSpanFilterList::Deny(vec!["x".to_string()]);
    assert!(!b.span_allowed(&Some("x".to_string())));
    assert!(b.span_allowed(&None));
    b.tracing_filter_span = HtraceBridgeSpanFilterList::Allow(vec![]);
    assert!(!b.span_allowed(&Some("x".to_string())));
    assert!(b.span_allowed(&None));
}

#[test]
fn event_text_and_span_path() {
    let mut v = Visitor::new();
    assert_eq!(event_message(&v), "<no message>");
    v.record("message", "hello".to_string());
    v.record("id", "4".to_string());
    v.record("who", "ann".to_string());
    assert_eq!(event_message(&v), "hello {id=4, who=ann}");
    assert_eq!(span_path(&vec!["a".to_string(), "b".to_string(), "c".to_string()]), "a::b::c");
    assert_eq!(span_path(&vec![]), "");
}

fn sym(name: &str, file: &str, line: u32) -> Vec<RawSymbol> {
    vec![RawSymbol { name: Some(name.to_string()), file: Some(file.to_string()), line: Some(line) }]
}

#[test]
fn frames_from_the_callers_file_on() {
    let frames = vec![
        sym("backtrace::trace::h1", "/cargo/backtrace/src/lib.rs", 1),
        sym("app::log::emit::h2", "/work/src/log.rs", 10),
        sym("core::ops::call::h3", "/rustc/abc/core.rs", 5),
        sym("nocolons", "/work/src/main.rs", 3),
        sym("app::main::h4", "/work/src/main.rs", 20),
    ];
    let kept = select_frames(&frames, "src/log.rs");
    let names: Vec<&str> = kept.iter().map(|f| f.funcName.as_str()).collect();
    assert_eq!(names, vec!["app::log::emit()", "app::main()"]);
    assert_eq!(kept[1].to_string(), "/work/src/main.rs(20): app::main()");
    assert!(select_frames(&frames, "other.rs").is_empty());
}

#[test]
fn file_names_of_a_record() {
    let mut cfg = FileConfig::default();
    assert_eq!(cfg.path, "./traces");
    assert_eq!(file_date_text(None, 0, true), "00000000");
    assert_eq!(file_date_text(Some((2024, 3, 5)), 13 * 3_600_000_000, true), "20240305_13");
    assert_eq!(file_date_text(Some((-44, 3, 15)), 0, false), "-00440315");
    cfg.bySrc = true;
    cfg.byHour = true;
    cfg.forceInOneFile = Some("all".to_string());
    let p = file_paths(&cfg, Some((2024, 3, 5)), 0, &"src/lib.v2.rs".to_string(), &None);
    assert_eq!(p, vec!["./traces/all_20240305_00.trc", "./traces/lib_20240305_00.trc", "./traces/MAIN_20240305_00.trc"]);
}

#[test]
fn file_names_use_the_calendar_date() {
    let cfg = FileConfig::default();
    // 2024-03-05 12:00 UTC
    let mut t = record("x", 1_709_640_000_000_000, Context::default());
    t.filename = "a/b.rs".to_string();
    let p = trace_file_paths(&cfg, &t, &Some("w1".to_string()));
    assert_eq!(p, vec!["./traces/w1_20240305.trc"]);
    t.date = -2_208_988_800_000_000;
    assert_eq!(trace_file_paths(&cfg, &t, &None), vec!["./traces/MAIN_19000101.trc"]);
}

#[test]
fn thread_registration() {
    let mut t = ThreadManager::new();
    assert_eq!(t.local_getName(), None);
    t.local_setName("w");
    assert_eq!(t.local_getName(), Some("w".to_string()));
    assert_eq!(t.local_setExtraDatas("k", "1"), None);
    assert_eq!(t.local_setExtraDatas("k", "2"), Some("1".to_string()));
    assert_eq!(t.local_getExtraDatas("k"), Some("2".to_string()));
    assert_eq!(t.local_getExtraDatas("z"), None);
}

#[test]
fn context_setters_and_merge() {
    let mut c = Context::named(None, "n");
    assert_eq!(c.name_get().clone(), Some("n".to_string()));
    c.extra_set("a", "1");
    let mut other = KeyedMap::new();
    other.insert("a".to_string(), "9".to_string());
    other.insert("b".to_string(), "2".to_string());
    c.extra_merge(&other);
    assert_eq!(c.extra_get("a").unwrap(), "9");
    assert_eq!(c.extra_getAll().len(), 2);
    c.module_add("s", 5);
    c.module_add("t", 5);
    assert_eq!(c.live_sinks(), vec![5, 5]);
    assert_eq!(c.distinct_sinks(), vec![5]);
    c.module_discard("s");
    assert_eq!(c.modules_get().len(), 2);
    assert_eq!(c.live_sinks(), vec![5]);
    let d = c.duplicate();
    assert_eq!(d.live_sinks(), vec![5]);
}
