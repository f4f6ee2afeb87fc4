use sketchbook::engine::Point;
use sketchbook::rhb::state::fall::{Falling, FallingEndState};
use sketchbook::rhb::state::idle::Idle;
use sketchbook::rhb::state::jump::{Jumping, JumpingEndState};
use sketchbook::rhb::state::over::KnockedOut;
use sketchbook::rhb::state::run::Running;
use sketchbook::rhb::state::slid::{Sliding, SlidingEndState};
use sketchbook::rhb::state::{
    Event, RedHatBoyContext, RedHatBoyState, RedHatBoyStateMachine, FLOOR, PLAYER_HEIGHT,
};

fn context(frame: u8, y: i16, vx: i16, vy: i16) -> RedHatBoyContext {
    RedHatBoyContext {
        frame,
        position: Point { x: -20, y },
        velocity: Point { x: vx, y: vy },
    }
}

fn updated(machine: RedHatBoyStateMachine, times: usize) -> RedHatBoyStateMachine {
    let mut machine = machine;
    for _ in 0..times {
        machine = machine.transition(Event::Update);
    }
    machine
}

#[test]
fn a_fresh_boy_stands_idle_on_the_floor() {
    let machine = RedHatBoyStateMachine::default();
    assert_eq!(machine.frame_name(), "Idle");
    assert_eq!(*machine.context(), context(0, FLOOR, 0, 0));
    assert_eq!(RedHatBoyState::<Idle>::new().context, context(0, 479, 0, 0));
}

#[test]
fn the_player_is_as_tall_as_the_canvas_is_below_the_floor() {
    assert_eq!(PLAYER_HEIGHT, 121);
}

#[test]
fn gravity_adds_two_below_terminal_velocity_and_one_above() {
    assert_eq!(context(0, 100, 0, 0).update(29), context(1, 102, 0, 2));
    assert_eq!(context(0, 100, 0, 19).update(29), context(1, 121, 0, 21));
    assert_eq!(context(0, 100, 0, 20).update(29), context(1, 121, 0, 21));
    assert_eq!(context(0, 100, 0, 21).update(29), context(1, 122, 0, 22));
    assert_eq!(context(0, 100, 0, -35).update(29), context(1, 67, 0, -33));
}

#[test]
fn the_boy_never_sinks_below_the_floor() {
    assert_eq!(context(0, 479, 0, 0).update(29), context(1, 479, 0, 2));
    assert_eq!(context(0, 470, 0, 10).update(29), context(1, 479, 0, 12));
    assert_eq!(context(0, 467, 0, 10).update(29), context(1, 479, 0, 12));
    assert_eq!(context(0, 466, 0, 10).update(29), context(1, 478, 0, 12));
}

#[test]
fn the_animation_wraps_after_its_last_frame() {
    assert_eq!(context(28, 479, 0, 0).update(29).frame, 29);
    assert_eq!(context(29, 479, 0, 0).update(29).frame, 0);
    assert_eq!(context(30, 479, 0, 0).update(29).frame, 0);
    assert_eq!(context(0, 479, 0, 0).update(0).frame, 0);
}

#[test]
fn context_builders_change_one_thing_each() {
    let start = context(7, 300, 5, -3);
    assert_eq!(start.reset_frame(), context(0, 300, 5, -3));
    assert_eq!(start.run_right(), context(7, 300, 10, -3));
    assert_eq!(start.set_vertical_velocity(-35), context(7, 300, 5, -35));
    assert_eq!(start.stop(), context(7, 300, 0, -3));
    assert_eq!(start.set_on(600), context(7, 479, 5, -3));
    assert_eq!(start.set_on(420), context(7, 299, 5, -3));
}

#[test]
fn idle_updates_stay_idle_while_the_velocity_grows() {
    let machine = updated(RedHatBoyStateMachine::default(), 10);
    assert_eq!(machine.frame_name(), "Idle");
    assert_eq!(*machine.context(), context(10, 479, 0, 20));
    let machine = updated(machine, 1);
    assert_eq!(*machine.context(), context(11, 479, 0, 21));
    let machine = updated(machine, 19);
    assert_eq!(*machine.context(), context(0, 479, 0, 40));
}

#[test]
fn idle_ignores_everything_but_run_and_update() {
    let machine = RedHatBoyStateMachine::default();
    for event in [Event::Jump, Event::Slide, Event::KnockOut, Event::Land(300)] {
        assert_eq!(machine.transition(event), machine);
    }
}

#[test]
fn run_starts_the_boy_running_at_speed_five() {
    let machine = updated(RedHatBoyStateMachine::default(), 3).transition(Event::Run);
    assert_eq!(machine.frame_name(), "Run");
    assert_eq!(*machine.context(), context(0, 479, 5, 6));
    assert_eq!(machine.transition(Event::Run), machine);
}

#[test]
fn a_jump_rises_and_falls_and_lands_after_thirty_five_updates() {
    let running = RedHatBoyStateMachine::default().transition(Event::Run);
    let jumping = running.transition(Event::Jump);
    assert_eq!(jumping.frame_name(), "Jump");
    assert_eq!(*jumping.context(), context(0, 479, 5, -35));
    assert_eq!(*updated(jumping, 1).context(), context(1, 446, 5, -33));
    assert_eq!(*updated(jumping, 2).context(), context(2, 415, 5, -31));
    assert_eq!(*updated(jumping, 17).context(), context(17, 190, 5, -1));
    assert_eq!(*updated(jumping, 18).context(), context(18, 191, 5, 1));
    assert_eq!(*updated(jumping, 29).context(), context(29, 333, 5, 22));
    let last = updated(jumping, 34);
    assert_eq!(last.frame_name(), "Jump");
    assert_eq!(*last.context(), context(34, 458, 5, 27));
    let landed = updated(jumping, 35);
    assert_eq!(landed.frame_name(), "Run");
    assert_eq!(*landed.context(), context(0, 479, 5, 28));
}

#[test]
fn a_slide_ends_after_fourteen_updates() {
    let sliding = RedHatBoyStateMachine::default()
        .transition(Event::Run)
        .transition(Event::Update)
        .transition(Event::Slide);
    assert_eq!(sliding.frame_name(), "Slide");
    assert_eq!(*sliding.context(), context(0, 479, 5, 2));
    let still = updated(sliding, 13);
    assert_eq!(still.frame_name(), "Slide");
    assert_eq!(still.context().frame, 13);
    let up = updated(sliding, 14);
    assert_eq!(up.frame_name(), "Run");
    assert_eq!(up.context().frame, 0);
    assert_eq!(up.context().velocity, Point { x: 5, y: 25 });
}

#[test]
fn a_knocked_boy_falls_for_twenty_nine_updates_and_then_lies_still() {
    let running = RedHatBoyStateMachine::default().transition(Event::Run);
    let falling = running.transition(Event::KnockOut);
    assert_eq!(falling.frame_name(), "Dead");
    assert_eq!(*falling.context(), *running.context());
    assert!(matches!(falling, RedHatBoyStateMachine::Falling(_)));
    let still_falling = updated(falling, 28);
    assert!(matches!(still_falling, RedHatBoyStateMachine::Falling(_)));
    let out = updated(falling, 29);
    assert!(matches!(out, RedHatBoyStateMachine::KnockedOut(_)));
    assert_eq!(out.frame_name(), "Dead");
    assert_eq!(*out.context(), context(29, 479, 5, 39));
    for event in [
        Event::Run,
        Event::Jump,
        Event::Slide,
        Event::Update,
        Event::KnockOut,
        Event::Land(300),
    ] {
        assert_eq!(out.transition(event), out);
    }
}

#[test]
fn knocking_out_in_the_air_or_in_a_slide_stops_the_boy() {
    let running = RedHatBoyStateMachine::default().transition(Event::Run);
    let jumping = updated(running.transition(Event::Jump), 4);
    let falling = jumping.transition(Event::KnockOut);
    assert!(matches!(falling, RedHatBoyStateMachine::Falling(_)));
    assert_eq!(*falling.context(), context(0, 359, 0, -27));
    let sliding = updated(running.transition(Event::Slide), 2);
    let falling = sliding.transition(Event::KnockOut);
    assert!(matches!(falling, RedHatBoyStateMachine::Falling(_)));
    assert_eq!(*falling.context(), context(0, 479, 0, 4));
}

#[test]
fn landing_puts_the_boy_on_top_of_the_platform() {
    let running = updated(RedHatBoyStateMachine::default().transition(Event::Run), 2);
    let landed = running.transition(Event::Land(420));
    assert_eq!(landed.frame_name(), "Run");
    assert_eq!(*landed.context(), context(2, 299, 5, 4));
    let jumping = updated(running.transition(Event::Jump), 3);
    let landed = jumping.transition(Event::Land(375));
    assert_eq!(landed.frame_name(), "Run");
    assert_eq!(*landed.context(), context(0, 254, 5, -29));
    let sliding = updated(running.transition(Event::Slide), 3);
    let landed = sliding.transition(Event::Land(420));
    assert_eq!(landed.frame_name(), "Slide");
    assert_eq!(landed.context().frame, 3);
    assert_eq!(landed.context().position.y, 299);
}

#[test]
fn a_falling_boy_ignores_landing_and_keys() {
    let falling =
        RedHatBoyStateMachine::default().transition(Event::Run).transition(Event::KnockOut);
    for event in [Event::Run, Event::Jump, Event::Slide, Event::KnockOut, Event::Land(420)] {
        assert_eq!(falling.transition(event), falling);
    }
}

#[test]
fn typed_states_offer_their_own_moves() {
    let idle = RedHatBoyState::<Idle>::new();
    assert_eq!(idle.frame_name(), "Idle");
    assert_eq!(idle.update().context, context(1, 479, 0, 2));
    let running: RedHatBoyState<Running> = idle.run();
    assert_eq!(running.frame_name(), "Run");
    assert_eq!(running.context, context(0, 479, 5, 0));
    assert_eq!(running.update().context, context(1, 479, 5, 2));
    assert_eq!(running.land_on(500).context, context(0, 379, 5, 0));
    let sliding: RedHatBoyState<Sliding> = running.update().slide();
    assert_eq!(sliding.frame_name(), "Slide");
    assert_eq!(sliding.context, context(0, 479, 5, 2));
    assert_eq!(sliding.stand().context, context(0, 479, 5, 2));
    assert_eq!(sliding.land_on(500).context, context(0, 379, 5, 2));
    assert_eq!(sliding.knock_out().context, context(0, 479, 0, 2));
    let jumping: RedHatBoyState<Jumping> = running.jump();
    assert_eq!(jumping.frame_name(), "Jump");
    assert_eq!(jumping.context, context(0, 479, 5, -35));
    assert_eq!(jumping.knock_out().context, context(0, 479, 0, -35));
    assert_eq!(jumping.land_on(600).context, context(0, 479, 5, -35));
    let falling: RedHatBoyState<Falling> = running.knock_out();
    assert_eq!(falling.frame_name(), "Dead");
    assert_eq!(falling.context, running.context);
    let out: RedHatBoyState<KnockedOut> = falling.knock_out();
    assert_eq!(out.frame_name(), "Dead");
    assert_eq!(out.context, running.context);
}

#[test]
fn update_context_ticks_any_state() {
    let mut state = RedHatBoyState::<Idle>::new();
    state.update_context(29);
    assert_eq!(*state.context(), context(1, 479, 0, 2));
}

#[test]
fn updates_of_typed_states_say_how_they_ended() {
    let running = RedHatBoyState::<Idle>::new().run();
    match running.jump().update() {
        JumpingEndState::Jumping(state) => assert_eq!(state.context, context(1, 446, 5, -33)),
        JumpingEndState::Landing(_) => panic!("landed after one tick"),
    }
    let mut low = running.jump();
    low.context.position.y = 470;
    low.context.velocity.y = 10;
    match low.update() {
        JumpingEndState::Landing(state) => assert_eq!(state.context, context(0, 479, 5, 12)),
        JumpingEndState::Jumping(_) => panic!("still in the air at the floor"),
    }
    let mut sliding = running.slide();
    sliding.context.frame = 13;
    match sliding.update() {
        SlidingEndState::Running(state) => assert_eq!(state.context.frame, 0),
        SlidingEndState::Sliding(_) => panic!("still sliding at the last frame"),
    }
    sliding.context.frame = 12;
    match sliding.update() {
        SlidingEndState::Sliding(state) => assert_eq!(state.context.frame, 13),
        SlidingEndState::Running(_) => panic!("stood up too early"),
    }
    let mut falling = running.knock_out();
    falling.context.frame = 28;
    match falling.update() {
        FallingEndState::KnockedOut(state) => assert_eq!(state.context.frame, 29),
        FallingEndState::Falling(_) => panic!("still falling at the last frame"),
    }
    falling.context.frame = 27;
    match falling.update() {
        FallingEndState::Falling(state) => assert_eq!(state.context.frame, 28),
        FallingEndState::KnockedOut(_) => panic!("knocked out too early"),
    }
}

#[test]
fn end_states_become_states_of_the_machine() {
    let running = RedHatBoyState::<Idle>::new().run();
    assert!(matches!(
        RedHatBoyStateMachine::from(running.jump().update()),
        RedHatBoyStateMachine::Jumping(_)
    ));
    assert!(matches!(
        RedHatBoyStateMachine::from(running.slide().update()),
        RedHatBoyStateMachine::Sliding(_)
    ));
    assert!(matches!(
        RedHatBoyStateMachine::from(running.knock_out().update()),
        RedHatBoyStateMachine::Falling(_)
    ));
    assert!(matches!(
        RedHatBoyStateMachine::from(running.knock_out().knock_out()),
        RedHatBoyStateMachine::KnockedOut(_)
    ));
    assert!(matches!(RedHatBoyStateMachine::from(running), RedHatBoyStateMachine::Running(_)));
    let machine: RedHatBoyStateMachine = RedHatBoyState::<Idle>::new().into();
    assert!(matches!(machine, RedHatBoyStateMachine::Idle(_)));
}
