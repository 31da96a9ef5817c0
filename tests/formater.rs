use htrace::context::Context;
use htrace::context_manager::ContextManager;
use htrace::formater::FormaterCompile;
use htrace::level::Level;
use htrace::params::FormaterParamBuilder;
use htrace::thread_manager::ThreadManager;
use htrace::trace::OneTrace;

/// 1900-01-01 00:00 UTC, in microseconds since the Unix epoch.
const DATE_1900: i64 = -2_208_988_800_000_000;

fn render_sample() -> String {
    let mut thread = ThreadManager::new();
    let mut manager = ContextManager::new();
    manager.globalContext_set(&mut thread, Context::default());

    let compiled = FormaterCompile(
        &"{time} {lvl} ({thread:>, }{file}:l{line} |{extra}{extra[test]}|) : {msg}".to_string(),
    );

    let mut context = Context::for_thread(thread.local_getName());
    context.extra_set("test", "cake");

    let parameters = FormaterParamBuilder(
        &OneTrace {
            message: "message line".to_string(),
            date: DATE_1900,
            level: Level::DEBUG,
            context,
            filename: "file.rs".to_string(),
            fileline: 42,
            backtraces: vec![],
        },
        &" | ".to_string(),
    );
    compiled.render(parameters)
}

#[test]
fn formater_formater() {
    assert_eq!(
        render_sample(),
        "00:00:00.000000 DBUG (MAIN, file.rs:l42 |{extra}cake|) : message line",
        "simpleFormater format changed"
    );
}

#[test]
fn tests_formater() {
    assert_eq!(
        render_sample(),
        "00:00:00.000000 DBUG (MAIN, file.rs:l42 |{extra}cake|) : message line",
        "simpleFormater format changed"
    );
}
