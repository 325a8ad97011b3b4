use supernova::schedule::{Schedule, SystemSet};
use supernova::system::FnSystem;

#[test]
fn fn_system_keeps_name_and_function() {
    let s = FnSystem::new(String::from("physics"), |x: i32| x + 1);
    assert_eq!(s.name(), "physics");
    assert_eq!((s.func())(1), 2);
}

#[test]
fn schedule_runs_in_insertion_order() {
    let mut sched: Schedule<&'static str> = Schedule::new();
    assert!(sched.is_empty());
    sched.add_system("input").add_system_in_set("physics", SystemSet::new(String::from("sim")));
    sched.add_system("render");
    assert_eq!(sched.len(), 3);
    assert_eq!(sched.execution_order(), vec![0, 1, 2]);
    assert_eq!(*sched.system(1), "physics");
    *sched.system_mut(2) = "draw";
    assert_eq!(*sched.system(2), "draw");
    sched.add_system("audio");
    assert_eq!(sched.execution_order(), vec![0, 1, 2, 3]);
}

#[test]
fn system_set_label() {
    let s = SystemSet::new(String::from("update"));
    assert_eq!(s.0, "update");
    assert_eq!(s, SystemSet(String::from("update")));
}

#[test]
fn system_set_from_str() {
    let s = SystemSet::from("physics");
    assert_eq!(s.0, "physics");
    assert_eq!(s, SystemSet::new(String::from("physics")));
    assert_ne!(SystemSet::from("physics"), SystemSet::from("render"));
}
