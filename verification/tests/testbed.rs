use hactar::codec::{decode, encode, AMPLITUDE_SCALE, MIDPOINT};
use hactar::controller::Controller;
use hactar::device::Device;
use hactar::events::{
    ControllerInput, ControllerToViewEvent, NetworkEvent, ViewToControllerEvent, ViewToWorldEvent,
    WorldToViewEvent,
};
use hactar::monitor::{Monitor, SerialPort};
use hactar::packet::{packet_samples, Depacketizer, Packetizer};
use hactar::platform::{App, Led, MacOsPlatform, Platform, StatusLed};
use hactar::records::FooView;
use hactar::relay::relay_run;
use hactar::rgb::RGB;
use hactar::view::DeviceView;
use hactar::world::World;

#[test]
fn it_works() {
    println!("view: {:?}", FooView(&[1, 2, 3]).len());
}

#[test]
fn foo_view_reports_encoded_length() {
    assert_eq!(FooView(&[1, 2, 3]).len(), 3);
    assert_eq!(FooView(&[]).len(), 0);
}

#[test]
fn codec_fixed_points() {
    assert_eq!(encode(0), MIDPOINT);
    assert_eq!(decode(MIDPOINT), 0);
    assert_eq!(encode(AMPLITUDE_SCALE), 2 * MIDPOINT);
    assert_eq!(encode(-AMPLITUDE_SCALE), 0);
    assert_eq!(decode(0), -AMPLITUDE_SCALE);
    assert_eq!(decode(2 * MIDPOINT), AMPLITUDE_SCALE);
}

#[test]
fn codec_clamps_out_of_range() {
    assert_eq!(encode(2 * AMPLITUDE_SCALE), encode(AMPLITUDE_SCALE));
    assert_eq!(encode(i32::MIN), 0);
    assert_eq!(encode(i32::MAX), 2 * MIDPOINT);
}

#[test]
fn codec_round_trip_within_one_step() {
    // One quantization step, in fixed-point units, rounded up.
    let step = (AMPLITUDE_SCALE + MIDPOINT as i32 - 1) / MIDPOINT as i32;
    let mut a = -AMPLITUDE_SCALE;
    while a <= AMPLITUDE_SCALE {
        let back = decode(encode(a));
        assert!(back <= a, "decode(encode({a})) = {back} overshoots");
        assert!(a - back <= step, "decode(encode({a})) = {back} off by more than {step}");
        a += 997;
    }
}

#[test]
fn codec_round_trip_floats_within_one_step() {
    // A float amplitude goes through the fixed-point representation, so the
    // round trip may lose one wire quantization step plus the fixed-point
    // granularity on either side.
    let tolerance = 1.0f64 / 32767.0 + 2.0 / AMPLITUDE_SCALE as f64;
    let mut k = -1000i32;
    while k <= 1000 {
        let x = k as f64 / 1000.0;
        let a = (x * AMPLITUDE_SCALE as f64) as i32;
        let back = decode(encode(a)) as f64 / AMPLITUDE_SCALE as f64;
        assert!(
            (back - x).abs() <= tolerance,
            "round trip of {x} came back as {back}"
        );
        k += 7;
    }
}

#[test]
fn packet_samples_from_stream_config() {
    assert_eq!(packet_samples(48000, 2, 10), 960);
    assert_eq!(packet_samples(44100, 1, 10), 441);
    assert_eq!(packet_samples(8000, 1, 20), 160);
    // Frames round down before the channel count comes in.
    assert_eq!(packet_samples(44110, 2, 10), 882);
}

#[test]
fn packetizer_cuts_full_packets_and_keeps_remainder() {
    let mut p = Packetizer::new(4);
    assert_eq!(p.packet_len(), 4);
    let packets = p.push(&[1, 2, 3, 4, 5, 6, 7, 8, 9, 10]);
    assert_eq!(packets, vec![vec![1, 2, 3, 4], vec![5, 6, 7, 8]]);
    // The remainder 9, 10 stays accumulated for the next call.
    let packets = p.push(&[11, 12, 13]);
    assert_eq!(packets, vec![vec![9, 10, 11, 12]]);
    let packets = p.push(&[]);
    assert!(packets.is_empty());
}

#[test]
fn depacketizer_fills_silence_on_empty_queue() {
    // A playback request of 160 samples against an empty queue comes back
    // as 160 samples of the midpoint, without blocking.
    let mut d = Depacketizer::new();
    let out = d.fill(160);
    assert_eq!(out.len(), 160);
    assert!(out.iter().all(|&s| s == MIDPOINT));
}

#[test]
fn depacketizer_drains_in_order_then_pads() {
    let mut d = Depacketizer::new();
    d.enqueue(vec![1, 2, 3]);
    d.enqueue(vec![4, 5]);
    assert_eq!(d.fill(4), vec![1, 2, 3, 4]);
    assert_eq!(d.fill(3), vec![5, MIDPOINT, MIDPOINT]);
    assert_eq!(d.queued_len(), 0);
}

#[test]
fn rgb_blend_endpoints_and_midpoint() {
    assert_eq!(RGB::blend(0xff0000, 0x0000ff, 0, 128), 0xff0000);
    assert_eq!(RGB::blend(0xff0000, 0x0000ff, 128, 128), 0x0000ff);
    assert_eq!(RGB::blend(0x000000, 0x0000ff, 64, 128), 0x00007f);
    assert_eq!(RGB::blend(0x402000, 0x004020, 32, 128), 0x302808);
}

#[test]
fn rgb_words_round_trip() {
    let c = RGB::from_word(0x123456);
    assert_eq!((c.0, c.1, c.2), (0x12, 0x34, 0x56));
    assert_eq!(c.to_word(), 0x123456);
}

#[test]
fn view_translates_each_event() {
    let v = DeviceView::new("a");
    assert_eq!(v.name(), "a");
    assert!(matches!(
        v.handle_world(WorldToViewEvent::Click),
        ViewToControllerEvent::Click
    ));
    match v.handle_world(WorldToViewEvent::Audio(vec![7, 8])) {
        ViewToControllerEvent::Audio(p) => assert_eq!(p, vec![7, 8]),
        _ => panic!("audio not forwarded as audio"),
    }
    match v.handle_controller(ControllerToViewEvent::Show("b", 3)) {
        ViewToWorldEvent::Show(name, count) => {
            assert_eq!(name, "b");
            assert_eq!(count, 3);
        }
        _ => panic!("show not forwarded as show"),
    }
    assert!(matches!(
        v.handle_controller(ControllerToViewEvent::StartRecording),
        ViewToWorldEvent::StartRecording
    ));
    assert!(matches!(
        v.handle_controller(ControllerToViewEvent::StopRecording),
        ViewToWorldEvent::StopRecording
    ));
}

#[test]
fn view_run_forwards_everything_once_in_order() {
    let v = DeviceView::new("a");
    let from_world = vec![
        WorldToViewEvent::Click,
        WorldToViewEvent::Audio(vec![1]),
        WorldToViewEvent::Click,
    ];
    let from_controller = vec![
        ControllerToViewEvent::StartRecording,
        ControllerToViewEvent::Show("a", 1),
    ];
    let (to_controller, to_world) = v.run(from_world, from_controller);
    assert_eq!(to_controller.len(), 3);
    assert!(matches!(to_controller[0], ViewToControllerEvent::Click));
    assert!(matches!(to_controller[1], ViewToControllerEvent::Audio(_)));
    assert!(matches!(to_controller[2], ViewToControllerEvent::Click));
    assert_eq!(to_world.len(), 2);
    assert!(matches!(to_world[0], ViewToWorldEvent::StartRecording));
    assert!(matches!(to_world[1], ViewToWorldEvent::Show("a", 1)));
}

#[test]
fn relay_preserves_order_per_direction() {
    let from_a = vec![
        NetworkEvent::Click("a"),
        NetworkEvent::Audio(vec![1, 2]),
        NetworkEvent::Click("a"),
    ];
    let from_b = vec![NetworkEvent::Audio(vec![9]), NetworkEvent::Click("b")];
    let (to_b, to_a) = relay_run(from_a, from_b);
    assert_eq!(to_b.len(), 3);
    assert!(matches!(to_b[0], NetworkEvent::Click("a")));
    match &to_b[1] {
        NetworkEvent::Audio(p) => assert_eq!(*p, vec![1, 2]),
        _ => panic!("audio lost in relay"),
    }
    assert!(matches!(to_b[2], NetworkEvent::Click("a")));
    assert_eq!(to_a.len(), 2);
    assert!(matches!(to_a[0], NetworkEvent::Audio(_)));
    assert!(matches!(to_a[1], NetworkEvent::Click("b")));
}

#[test]
fn one_click_travels_to_the_peer() {
    // Device A emits one click: controller A counts it, announces it, and
    // controller B counts it under A's name and shows it.
    let mut a = Controller::new("a");
    let (to_view, to_network) = a.handle_view(ViewToControllerEvent::Click);
    assert_eq!(a.click_count("a"), 1);
    assert_eq!(to_network.len(), 1);
    assert!(matches!(to_network[0], NetworkEvent::Click("a")));
    assert_eq!(to_view.len(), 2);
    assert!(matches!(to_view[0], ControllerToViewEvent::Show("a", 1)));
    assert!(matches!(to_view[1], ControllerToViewEvent::StartRecording));

    let mut b = Controller::new("b");
    let shown = b.handle_network(NetworkEvent::Click("a"));
    assert!(matches!(shown, ControllerToViewEvent::Show("a", 1)));
    assert_eq!(b.click_count("a"), 1);
    assert_eq!(b.click_count("b"), 0);
}

#[test]
fn recording_toggles_on_local_clicks_only() {
    // Click 1 starts recording, click 2 stops it, and a remote click in
    // between changes nothing about the flag.
    let mut a = Controller::new("a");
    assert!(!a.recording_active());

    let (to_view, _) = a.handle_view(ViewToControllerEvent::Click);
    assert!(a.recording_active());
    assert!(matches!(to_view[1], ControllerToViewEvent::StartRecording));

    let _ = a.handle_network(NetworkEvent::Click("b"));
    assert!(a.recording_active());

    let (to_view, _) = a.handle_view(ViewToControllerEvent::Click);
    assert!(!a.recording_active());
    assert!(matches!(to_view[1], ControllerToViewEvent::StopRecording));
}

#[test]
fn peer_count_matches_local_clicks() {
    // Five local clicks on A, relayed, leave B's count for A at five and
    // B's own count untouched.
    let mut a = Controller::new("a");
    let mut b = Controller::new("b");

    // B has two local clicks of its own first.
    for _ in 0..2 {
        let _ = b.handle_view(ViewToControllerEvent::Click);
    }
    assert_eq!(b.click_count("b"), 2);

    let mut inputs = Vec::new();
    for _ in 0..5 {
        inputs.push(ControllerInput::FromView(ViewToControllerEvent::Click));
    }
    let (_, to_network) = a.run(inputs);
    assert_eq!(a.click_count("a"), 5);
    assert_eq!(to_network.len(), 5);

    let (delivered, _) = relay_run(to_network, Vec::new());
    let mut b_inputs = Vec::new();
    for event in delivered {
        b_inputs.push(ControllerInput::FromNetwork(event));
    }
    let (b_to_view, b_to_network) = b.run(b_inputs);
    assert_eq!(b.click_count("a"), 5);
    assert_eq!(b.click_count("b"), 2);
    assert_eq!(b_to_view.len(), 5);
    assert!(matches!(b_to_view[4], ControllerToViewEvent::Show("a", 5)));
    assert!(b_to_network.is_empty());
}

#[test]
fn controller_forwards_audio_untouched() {
    let mut a = Controller::new("a");
    let (to_view, to_network) = a.handle_view(ViewToControllerEvent::Audio(vec![10, 20]));
    assert!(to_view.is_empty());
    match &to_network[0] {
        NetworkEvent::Audio(p) => assert_eq!(*p, vec![10, 20]),
        _ => panic!("captured audio not sent to the network"),
    }
    let shown = a.handle_network(NetworkEvent::Audio(vec![30]));
    match shown {
        ControllerToViewEvent::Audio(p) => assert_eq!(p, vec![30]),
        _ => panic!("received audio not sent to the view"),
    }
    assert_eq!(a.click_count("a"), 0);
}

#[test]
fn network_interface_is_take_once() {
    let mut c = Controller::new("c");
    let first = c.network_interface();
    assert!(first.is_some());
    assert_eq!(first.unwrap().name, "c");
    assert!(c.network_interface().is_none());
}

#[test]
fn pointer_debounce_yields_one_click_per_edge() {
    let mut w = World::new("a");
    // Rising edge: one click.
    let tick = w.run_one(None, true);
    assert!(tick.click);
    // Held down: no further click.
    assert!(!w.run_one(None, true).click);
    assert!(!w.run_one(None, true).click);
    // Released: nothing.
    assert!(!w.run_one(None, false).click);
    // Pressed again: one more click.
    assert!(w.run_one(None, true).click);
}

#[test]
fn world_routes_view_events() {
    let mut w = World::new("a");
    let tick = w.run_one(Some(ViewToWorldEvent::StartRecording), false);
    assert_eq!(tick.capture, Some(true));
    assert_eq!(tick.shown, None);
    let tick = w.run_one(Some(ViewToWorldEvent::StopRecording), false);
    assert_eq!(tick.capture, Some(false));
    let tick = w.run_one(Some(ViewToWorldEvent::Show("b", 3)), false);
    assert_eq!(tick.capture, None);
    assert_eq!(tick.shown, Some(("b", 3)));
    assert!(tick.frame_color <= 0xff_ff_ff);
}

#[test]
fn world_queues_inbound_audio_for_playback() {
    let mut w = World::new("a");
    let tick = w.run_one(Some(ViewToWorldEvent::Audio(vec![5, 6, 7])), false);
    assert_eq!(tick.capture, None);
    assert_eq!(tick.shown, None);
    let out = w.fill_playback(5);
    assert_eq!(out, vec![5, 6, 7, MIDPOINT, MIDPOINT]);
}

#[test]
fn world_ready_needs_open_surface_and_no_exit_key() {
    let w = World::new("a");
    assert!(w.ready(true, false));
    assert!(!w.ready(false, false));
    assert!(!w.ready(true, true));
    assert!(!w.ready(false, true));
}

#[test]
fn device_hands_out_internals_once() {
    let mut d = Device::new("a");
    assert!(d.world_ready(true, false));
    let iface = d.network_interface();
    assert!(iface.is_some());
    assert_eq!(iface.unwrap().name, "a");
    assert!(d.network_interface().is_none());

    let internals = d.take_internals();
    assert!(internals.is_some());
    let (view, controller) = internals.unwrap();
    assert_eq!(view.name(), "a");
    assert_eq!(controller.name(), "a");
    assert!(d.take_internals().is_none());

    // The world stays with the device and still ticks.
    let tick = d.run_world_one(None, true);
    assert!(tick.click);
}

struct LoopbackPort {
    buffer: Vec<u8>,
}

impl SerialPort for LoopbackPort {
    fn num_available(&mut self) -> u32 {
        self.buffer.len() as u32
    }

    fn write(&mut self, data: &Vec<u8>) -> usize {
        self.buffer.extend_from_slice(data);
        data.len()
    }

    fn read_byte(&mut self, _timeout: core::time::Duration) -> Vec<u8> {
        self.read_bytes(1, _timeout)
    }

    fn read_bytes(&mut self, num_bytes: usize, _timeout: core::time::Duration) -> Vec<u8> {
        let n = num_bytes.min(self.buffer.len());
        let rest = self.buffer.split_off(n);
        let head = std::mem::replace(&mut self.buffer, rest);
        head
    }

    fn read_line(&mut self, timeout: core::time::Duration) -> Vec<u8> {
        self.read_bytes(self.buffer.len(), timeout)
    }

    fn flush(&mut self) {}
}

#[test]
fn monitor_starts_without_error() {
    let port = LoopbackPort { buffer: Vec::new() };
    let mut monitor = Monitor::new(port);
    assert!(monitor.start_read_thread().is_ok());
}

#[test]
fn platform_hands_out_a_working_status_led() {
    assert_eq!(MacOsPlatform::name(), "macos");
    let mut platform = MacOsPlatform::default();
    let led = platform.status_led();
    assert!(led.is_some());
    let mut led = led.unwrap();
    led.set_high();
    assert!(led.level);
    led.set_low();
    assert!(!led.level);
}

#[test]
fn app_claims_the_platform_led() {
    let mut app = App::new(MacOsPlatform::default());
    let led = app.status_led();
    assert!(led.is_some());
}

#[test]
fn status_led_starts_unlit() {
    let led: Option<StatusLed> = MacOsPlatform::default().status_led();
    assert!(!led.unwrap().level);
}
