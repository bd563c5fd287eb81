use rust_fps_net::protocol::{Command, Snapshot};

#[test]
fn command_holds_player_input() {
    let c = Command { player_id: 7, input: String::from("jump") };
    let c2 = c.clone();
    assert_eq!(c2.player_id, 7);
    assert_eq!(c2.input.as_str(), "jump");
}

#[test]
fn snapshot_holds_tick_and_state() {
    let s = Snapshot { tick: 42, state: String::from("world") };
    let s2 = s.clone();
    assert_eq!(s2.tick, 42);
    assert_eq!(s2.state.as_str(), "world");
}
