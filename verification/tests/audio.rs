use lanmic::audio::{
    choose_config, config_for, describe, no_default_message, no_match_message, no_match_showing,
    pick_among, pick_device, BufferRange, BufferSize, ConfigRange, DeviceInfo, Direction, Picked, SampleFormat,
};

fn range(
    channels: u16,
    min: u32,
    max: u32,
    format: SampleFormat,
    buffer: BufferRange,
) -> ConfigRange {
    ConfigRange {
        channels,
        min_rate: min,
        max_rate: max,
        format,
        buffer,
    }
}

fn ranged(min: u32, max: u32) -> BufferRange {
    BufferRange::Range { min, max }
}

#[test]
fn a_device_that_cannot_do_48k_is_refused_rather_than_resampled() {
    let offered = vec![
        range(2, 44100, 44100, SampleFormat::F32, ranged(64, 4096)),
        range(1, 8000, 16000, SampleFormat::I16, ranged(64, 4096)),
    ];
    assert!(choose_config(&offered, 1, 240).is_none());
}

#[test]
fn formats_we_cannot_convert_are_skipped() {
    let offered = vec![
        range(1, 48000, 48000, SampleFormat::Other, ranged(64, 4096)),
        range(1, 48000, 48000, SampleFormat::Other, ranged(64, 4096)),
    ];
    assert!(choose_config(&offered, 1, 240).is_none());

    let offered = vec![
        range(1, 48000, 48000, SampleFormat::Other, ranged(64, 4096)),
        range(1, 48000, 48000, SampleFormat::F32, ranged(64, 4096)),
    ];
    assert_eq!(
        choose_config(&offered, 1, 240).unwrap().format,
        SampleFormat::F32
    );
}

#[test]
fn the_channel_count_closest_to_the_preference_wins() {
    let offered = vec![
        range(8, 48000, 48000, SampleFormat::I16, ranged(64, 4096)),
        range(2, 48000, 48000, SampleFormat::F32, ranged(64, 4096)),
        range(1, 48000, 48000, SampleFormat::F32, ranged(64, 4096)),
    ];
    // Capture wants mono even though a wider stream offers the nicer format.
    assert_eq!(choose_config(&offered, 1, 240).unwrap().channels(), 1);
    assert_eq!(choose_config(&offered, 2, 240).unwrap().channels(), 2);
}

#[test]
fn i16_is_preferred_when_the_channel_count_ties() {
    let offered = vec![
        range(2, 48000, 48000, SampleFormat::F32, ranged(64, 4096)),
        range(2, 48000, 48000, SampleFormat::I16, ranged(64, 4096)),
    ];
    assert_eq!(
        choose_config(&offered, 2, 240).unwrap().format,
        SampleFormat::I16
    );
}

#[test]
fn counts_on_either_side_of_the_preference_go_to_the_narrower() {
    let offered = vec![
        range(3, 48000, 48000, SampleFormat::I16, ranged(64, 4096)),
        range(1, 48000, 48000, SampleFormat::F32, ranged(64, 4096)),
    ];
    let c = choose_config(&offered, 2, 240).unwrap();
    assert_eq!((c.channels(), c.format), (1, SampleFormat::F32));

    let turned: Vec<ConfigRange> = offered.into_iter().rev().collect();
    let c = choose_config(&turned, 2, 240).unwrap();
    assert_eq!((c.channels(), c.format), (1, SampleFormat::F32));
}

#[test]
fn the_block_size_is_clamped_into_the_device_range_not_dropped() {
    let tight = vec![range(2, 48000, 48000, SampleFormat::I16, ranged(512, 1024))];
    assert_eq!(
        choose_config(&tight, 2, 240).unwrap().buffer_size,
        BufferSize::Fixed(512)
    );

    let wide = vec![range(2, 48000, 48000, SampleFormat::I16, ranged(64, 4096))];
    assert_eq!(
        choose_config(&wide, 2, 240).unwrap().buffer_size,
        BufferSize::Fixed(240)
    );

    let unknown = vec![range(
        2,
        48000,
        48000,
        SampleFormat::I16,
        BufferRange::Unknown,
    )];
    assert_eq!(
        choose_config(&unknown, 2, 240).unwrap().buffer_size,
        BufferSize::Default
    );
}

#[test]
fn a_block_above_the_range_is_brought_down_to_it() {
    let small = vec![range(2, 44100, 96000, SampleFormat::I16, ranged(16, 128))];
    let chosen = choose_config(&small, 2, 240).unwrap();
    assert_eq!(chosen.buffer_size, BufferSize::Fixed(128));
    assert_eq!(chosen.sample_rate, 48000);
}

#[test]
fn a_device_without_a_usable_config_is_named() {
    let none: Vec<ConfigRange> = Vec::new();
    assert_eq!(
        config_for("USB", &none, Direction::Output, 240).unwrap_err(),
        "USB cannot do 48000 Hz in 16-bit or float"
    );
    // Output wants stereo, capture mono.
    let offered = vec![
        range(1, 48000, 48000, SampleFormat::I16, ranged(64, 4096)),
        range(2, 48000, 48000, SampleFormat::I16, ranged(64, 4096)),
    ];
    assert_eq!(
        config_for("USB", &offered, Direction::Output, 240)
            .unwrap()
            .channels(),
        2
    );
    assert_eq!(
        config_for("USB", &offered, Direction::Input, 240)
            .unwrap()
            .channels(),
        1
    );
}

#[test]
fn a_device_is_picked_by_part_of_its_name_whatever_its_case() {
    let devices: Vec<String> = ["HDA Intel", "Scarlett 2i2 USB", "USB Audio CODEC"]
        .iter()
        .map(|s| s.to_string())
        .collect();
    assert_eq!(pick_device(&devices, None), Picked::Default);
    assert_eq!(pick_device(&devices, Some("  ")), Picked::Default);
    assert_eq!(pick_device(&devices, Some("scarLETT")), Picked::At(1));
    assert_eq!(pick_device(&devices, Some("usb")), Picked::At(1));
    assert_eq!(pick_device(&devices, Some("USB Audio CODEC")), Picked::At(2));
    assert_eq!(pick_device(&devices, Some("Focusrite")), Picked::Nothing);
}

#[test]
fn missing_devices_are_named() {
    assert_eq!(
        no_match_message(Direction::Output, "Foo"),
        "no Output device matching \"Foo\""
    );
    assert_eq!(
        no_match_message(Direction::Input, " Foo "),
        "no Input device matching \"Foo\""
    );
    assert_eq!(
        no_default_message(Direction::Input),
        "no default Input device"
    );
}

#[test]
fn a_listed_device_says_whether_it_will_do() {
    let offered = vec![range(2, 44100, 48000, SampleFormat::F32, BufferRange::Unknown)];
    let none: Vec<ConfigRange> = Vec::new();
    assert_eq!(
        describe("A".to_string(), &Some("A".to_string()), &offered),
        DeviceInfo {
            name: "A".to_string(),
            is_default: true,
            usable: true
        }
    );
    assert_eq!(
        describe("B".to_string(), &Some("A".to_string()), &none),
        DeviceInfo {
            name: "B".to_string(),
            is_default: false,
            usable: false
        }
    );
    assert!(!describe("B".to_string(), &None, &offered).is_default);
}

#[test]
fn an_exact_name_beats_an_earlier_part_of_one() {
    let of = |names: &[&str]| -> Vec<String> { names.iter().map(|s| s.to_string()).collect() };
    let devices = of(&["USB Audio", "usb", "USB"]);
    let lowered = of(&["usb audio", "usb", "usb"]);
    assert_eq!(pick_among(&devices, &lowered, "USB", "usb"), Picked::At(2));
    assert_eq!(pick_among(&devices, &lowered, "Usb", "usb"), Picked::At(0));
    assert_eq!(pick_among(&devices, &lowered, "x", "x"), Picked::Nothing);
    assert_eq!(pick_device(&devices, Some(" USB ")), Picked::At(2));
    assert_eq!(
        no_match_showing(Direction::Output, "<x>"),
        "no Output device matching <x>"
    );
}
