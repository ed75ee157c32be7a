use loe::buffer::Buffer;
use loe::input::CursorMove;
use loe::plugin::manager::CommandManager;
use loe::plugin::standard::StandardPlugin;
use loe::plugin::Plugin;

/// A plugin that claims fixed commands and writes a greeting into row 0.
struct Greeter {
    cmds: Vec<&'static str>,
}

impl Plugin for Greeter {
    fn name(&self) -> &'static str {
        "greeter"
    }

    fn commands(&self) -> Vec<String> {
        self.cmds.iter().map(|c| c.to_string()).collect()
    }

    fn dispatch(&mut self, buffer: &mut Buffer, cmd: &str) -> Result<(), String> {
        if cmd == "greet" {
            for c in "hi".chars() {
                buffer.insert(c).unwrap();
            }
            Ok(())
        } else {
            Err(format!("unknown {}", cmd))
        }
    }

    fn unload(self) {}
}

enum AnyPlugin {
    Standard(StandardPlugin),
    Greeter(Greeter),
}

impl Plugin for AnyPlugin {
    fn name(&self) -> &'static str {
        match self {
            AnyPlugin::Standard(p) => p.name(),
            AnyPlugin::Greeter(p) => p.name(),
        }
    }

    fn commands(&self) -> Vec<String> {
        match self {
            AnyPlugin::Standard(p) => p.commands(),
            AnyPlugin::Greeter(p) => p.commands(),
        }
    }

    fn dispatch(&mut self, buffer: &mut Buffer, cmd: &str) -> Result<(), String> {
        match self {
            AnyPlugin::Standard(p) => p.dispatch(buffer, cmd),
            AnyPlugin::Greeter(p) => p.dispatch(buffer, cmd),
        }
    }

    fn unload(self) {
        match self {
            AnyPlugin::Standard(p) => p.unload(),
            AnyPlugin::Greeter(p) => p.unload(),
        }
    }
}

fn greeter(cmds: Vec<&'static str>) -> AnyPlugin {
    AnyPlugin::Greeter(Greeter { cmds })
}

#[test]
fn standard_plugin_commands() {
    let p = StandardPlugin::load();
    assert_eq!(p.name(), "StandardPlugin");
    assert_eq!(p.commands(), vec!["h", "l", "j", "k", "0", "$", "gg", "G"]);
}

#[test]
fn standard_motions() {
    assert_eq!(StandardPlugin::motion("h", 3), Some(CursorMove::Relative(-1, 0)));
    assert_eq!(StandardPlugin::motion("l", 3), Some(CursorMove::Relative(1, 0)));
    assert_eq!(StandardPlugin::motion("j", 3), Some(CursorMove::Relative(0, 1)));
    assert_eq!(StandardPlugin::motion("k", 3), Some(CursorMove::Relative(0, -1)));
    assert_eq!(StandardPlugin::motion("0", 3), Some(CursorMove::CurrentRow(0)));
    assert_eq!(StandardPlugin::motion("$", 3), Some(CursorMove::CurrentRow(i64::MAX)));
    assert_eq!(StandardPlugin::motion("gg", 3), Some(CursorMove::Absolute(0, 0)));
    assert_eq!(StandardPlugin::motion("G", 3), Some(CursorMove::Absolute(0, 2)));
    assert_eq!(StandardPlugin::motion("g", 3), None);
    assert_eq!(StandardPlugin::motion("hh", 3), None);
}

#[test]
fn standard_dispatch_moves_cursor() {
    let mut p = StandardPlugin::load();
    let mut b = Buffer::load("/tmp/f", "abc\nde\nf");
    assert_eq!(p.dispatch(&mut b, "$"), Ok(()));
    assert_eq!(b.get_cursor(), (3, 0));
    assert_eq!(p.dispatch(&mut b, "j"), Ok(()));
    assert_eq!(b.get_cursor(), (2, 1));
    assert_eq!(p.dispatch(&mut b, "G"), Ok(()));
    assert_eq!(b.get_cursor(), (0, 2));
    assert_eq!(p.dispatch(&mut b, "gg"), Ok(()));
    assert_eq!(b.get_cursor(), (0, 0));
    assert_eq!(p.dispatch(&mut b, "l"), Ok(()));
    assert_eq!(p.dispatch(&mut b, "0"), Ok(()));
    assert_eq!(b.get_cursor(), (0, 0));
    assert!(p.dispatch(&mut b, "x").is_err());
    assert_eq!(b.get_row_at(0), Some("abc".to_string()));
}

#[test]
fn register_command_refuses_duplicates() {
    let mut m: CommandManager<AnyPlugin> = CommandManager::new();
    assert_eq!(m.register_plugin(greeter(vec![]), vec![]), Ok(()));
    assert_eq!(m.register_command("x".to_string(), 0), Ok(()));
    assert_eq!(
        m.register_command("x".to_string(), 0),
        Err("command already exists".to_string())
    );
    assert_eq!(m.owner("x"), Some(0));
}

#[test]
fn second_plugin_claiming_w_is_refused_whole() {
    let mut m: CommandManager<AnyPlugin> = CommandManager::new();
    assert_eq!(m.add_plugin(greeter(vec!["w", "greet"])), Ok(()));
    let r = m.add_plugin(greeter(vec!["other", "w"]));
    assert_eq!(r, Err("command already exists: w".to_string()));
    assert_eq!(m.plugin_count(), 1);
    assert_eq!(m.owner("other"), None);
    assert_eq!(m.owner("w"), Some(0));
    assert_eq!(m.owner("greet"), Some(0));
}

#[test]
fn plugin_claiming_a_command_twice_is_refused() {
    let mut m: CommandManager<AnyPlugin> = CommandManager::new();
    let r = m.add_plugin(greeter(vec!["a", "b", "a"]));
    assert_eq!(r, Err("command already exists: a".to_string()));
    assert_eq!(m.plugin_count(), 0);
    assert_eq!(m.owner("b"), None);
}

#[test]
fn add_plugin_registers_all_commands() {
    let mut m: CommandManager<AnyPlugin> = CommandManager::new();
    assert_eq!(m.add_plugin(AnyPlugin::Standard(StandardPlugin::load())), Ok(()));
    assert_eq!(m.add_plugin(greeter(vec!["greet"])), Ok(()));
    assert_eq!(m.plugin_count(), 2);
    for c in ["h", "l", "j", "k", "0", "$", "gg", "G"] {
        assert_eq!(m.owner(c), Some(0));
    }
    assert_eq!(m.owner("greet"), Some(1));
    assert_eq!(m.owner("g"), None);
}

#[test]
fn dispatch_unknown_command_changes_nothing() {
    let mut m: CommandManager<AnyPlugin> = CommandManager::new();
    m.add_plugin(AnyPlugin::Standard(StandardPlugin::load())).unwrap();
    let mut b = Buffer::load("/tmp/f", "abc\ndef");
    b.move_cursor(CursorMove::Absolute(1, 1));
    assert_eq!(m.dispatch(&mut b, "zz"), Err("command not found".to_string()));
    assert_eq!(b.get_cursor(), (1, 1));
    assert_eq!(b.get_row_at(0), Some("abc".to_string()));
    assert_eq!(b.get_row_at(1), Some("def".to_string()));
}

#[test]
fn dispatch_routes_to_owner() {
    let mut m: CommandManager<AnyPlugin> = CommandManager::new();
    m.add_plugin(AnyPlugin::Standard(StandardPlugin::load())).unwrap();
    m.add_plugin(greeter(vec!["greet"])).unwrap();
    let mut b = Buffer::new();
    assert_eq!(m.dispatch(&mut b, "greet"), Ok(()));
    assert_eq!(b.get_row_at(0), Some("hi".to_string()));
    assert_eq!(m.dispatch(&mut b, "0"), Ok(()));
    assert_eq!(b.get_cursor(), (0, 0));
}

#[test]
fn unload_all_consumes_registry() {
    let mut m: CommandManager<AnyPlugin> = CommandManager::new();
    m.add_plugin(AnyPlugin::Standard(StandardPlugin::load())).unwrap();
    m.unload_all();
}

#[test]
fn dispatch_needs_exact_match() {
    let mut m: CommandManager<AnyPlugin> = CommandManager::new();
    m.add_plugin(AnyPlugin::Standard(StandardPlugin::load())).unwrap();
    let mut b = Buffer::load("/tmp/f", "abc\ndef");
    b.move_cursor(CursorMove::Absolute(2, 1));
    assert_eq!(m.dispatch(&mut b, "g"), Err("command not found".to_string()));
    assert_eq!(b.get_cursor(), (2, 1));
    assert_eq!(m.dispatch(&mut b, "gg"), Ok(()));
    assert_eq!(b.get_cursor(), (0, 0));
}

#[test]
fn dispatch_returns_the_owner_result() {
    let mut m: CommandManager<AnyPlugin> = CommandManager::new();
    m.add_plugin(greeter(vec!["greet", "wave"])).unwrap();
    let mut b = Buffer::new();
    assert_eq!(m.dispatch(&mut b, "wave"), Err("unknown wave".to_string()));
    assert_eq!(b.get_row_at(0), Some(String::new()));
}
