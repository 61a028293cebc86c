use kindle_dashboard::display::{Panel, RenderBufferMode, sleep_timeout};
use kindle_dashboard::framebuffer::{
    AfterAttempt, Geometry, GeometryError, Refresh, UpdateLog, UpdateRect, UpdateVariant,
    check_geometry, geometry_fits, next_update_marker, refresh_full, refresh_region, update_code,
    update_request,
};
use kindle_dashboard::pixels::{
    Area, Rgb8Pixel, fill, frame_pixels, present_area, process_line, rgb_to_gray, write_line,
};

#[test]
fn rgb_conversion_supports_gray_and_bilevel_output() {
    let rgb = [
        Rgb8Pixel { r: 0, g: 0, b: 0 },
        Rgb8Pixel {
            r: 255,
            g: 255,
            b: 255,
        },
        Rgb8Pixel { r: 255, g: 0, b: 0 },
    ];
    let mut gray = [0; 3];
    rgb_to_gray(&rgb, &mut gray, false);
    assert_eq!(gray, [0, 255, 76]);

    rgb_to_gray(&rgb, &mut gray, true);
    assert_eq!(gray, [0, 255, 0]);
}

fn gray(value: u8) -> Rgb8Pixel {
    Rgb8Pixel { r: value, g: value, b: value }
}

#[test]
fn grays_are_shown_as_they_are_and_cut_at_the_middle() {
    let mut value: u8 = 0;
    loop {
        let mut byte = [0];
        rgb_to_gray(&[gray(value)], &mut byte, false);
        assert_eq!(byte, [value]);
        rgb_to_gray(&[gray(value)], &mut byte, true);
        assert_eq!(byte, [if value < 128 { 0x00 } else { 0xff }]);
        if value == 255 {
            break;
        }
        value += 1;
    }
    let mut bytes = [0; 2];
    rgb_to_gray(
        &[Rgb8Pixel { r: 0, g: 255, b: 0 }, Rgb8Pixel { r: 0, g: 0, b: 255 }],
        &mut bytes,
        false,
    );
    assert_eq!(bytes, [149, 28]);
}

#[test]
fn lines_go_to_their_place() {
    let mut memory = [9u8; 12];
    write_line(&mut memory, 4, 1, 2, &[1, 2]);
    assert_eq!(memory, [9, 9, 9, 9, 9, 9, 1, 2, 9, 9, 9, 9]);
    write_line(&mut memory, 4, 2, 4, &[]);
    assert_eq!(memory, [9, 9, 9, 9, 9, 9, 1, 2, 9, 9, 9, 9]);
}

#[test]
fn filling_leaves_the_padding_alone() {
    let mut memory = [9u8; 12];
    fill(&mut memory, 4, 3, 2, 0xff);
    assert_eq!(memory, [255, 255, 255, 9, 255, 255, 255, 9, 9, 9, 9, 9]);
    fill(&mut memory, 4, 0, 3, 0);
    assert_eq!(memory, [255, 255, 255, 9, 255, 255, 255, 9, 9, 9, 9, 9]);
}

#[test]
fn an_area_and_its_lines_show_the_same() {
    let mut frame = Vec::new();
    let mut value: u8 = 0;
    while value < 12 {
        frame.push(gray(value * 20));
        value += 1;
    }
    let area = Area { x: 1, y: 1, width: 2, height: 2 };
    let mut scratch = [0u8; 3];
    let mut whole = [7u8; 16];
    present_area(&frame, 3, area, false, &mut scratch, &mut whole, 4);
    assert_eq!(whole, [7, 7, 7, 7, 7, 80, 100, 7, 7, 140, 160, 7, 7, 7, 7, 7]);
    let mut lines = [7u8; 16];
    process_line(1, 1, 3, &frame[4..6], false, &mut scratch, &mut lines, 4);
    process_line(2, 1, 3, &frame[7..9], false, &mut scratch, &mut lines, 4);
    assert_eq!(lines, whole);
    process_line(3, 3, 2, &frame, true, &mut scratch, &mut lines, 4);
    assert_eq!(lines, whole);
    let nothing = Area { x: 3, y: 0, width: 0, height: 4 };
    present_area(&frame, 3, nothing, true, &mut scratch, &mut whole, 4);
    assert_eq!(lines, whole);
}

#[test]
fn frames_are_counted_as_far_as_they_can_be() {
    assert_eq!(frame_pixels(758, 1024), 776_192);
    assert_eq!(frame_pixels(usize::MAX, 2), usize::MAX);
    assert_eq!(frame_pixels(0, usize::MAX), 0);
}

#[test]
fn usable_framebuffers_have_a_geometry() {
    assert_eq!(
        check_geometry(758, 1024, 8, 768),
        Ok(Geometry { width: 758, height: 1024, stride: 768, len: 786_432 })
    );
}

#[test]
fn unusable_framebuffers_are_refused() {
    let depth = check_geometry(758, 1024, 32, 3032).unwrap_err();
    assert_eq!(depth, GeometryError::Depth { bits_per_pixel: 32 });
    assert_eq!(
        depth.message(),
        "unsupported framebuffer depth: 32 bpp (expected 8-bit grayscale)"
    );
    let size = check_geometry(758, 1024, 8, 757).unwrap_err();
    assert_eq!(size, GeometryError::Size { width: 758, height: 1024, stride: 757 });
    assert_eq!(size.message(), "invalid framebuffer geometry: 758x1024, stride=757");
    assert!(check_geometry(0, 1024, 8, 768).is_err());
    assert!(check_geometry(758, 0, 8, 768).is_err());
    assert_eq!(
        check_geometry(u32::MAX, u32::MAX, 1, u32::MAX),
        Err(GeometryError::Depth { bits_per_pixel: 1 })
    );
}

#[test]
fn only_usable_framebuffers_have_to_fit() {
    assert!(geometry_fits(758, 1024, 8, 768));
    assert!(geometry_fits(u32::MAX, u32::MAX, 1, u32::MAX));
    assert!(geometry_fits(u32::MAX, u32::MAX, 8, 1));
    assert_eq!(
        geometry_fits(1, u32::MAX, 8, u32::MAX),
        u64::from(u32::MAX) * u64::from(u32::MAX) <= usize::MAX as u64
    );
}

#[test]
fn every_update_takes_the_next_marker() {
    let mut log = UpdateLog::new();
    for marker in 1..5 {
        let attempt = log.begin_update();
        assert_eq!(attempt.marker, marker);
        log.conclude(attempt, marker % 2 == 1);
    }
    assert_eq!(log.next_marker, 5);
    assert_eq!(log.last_marker, Some(3));
}

#[test]
fn refreshes_cover_the_panel_or_a_part_of_it() {
    let geometry = check_geometry(758, 1024, 8, 768).unwrap();
    let full = refresh_full(&geometry);
    assert_eq!(
        full,
        Refresh {
            region: UpdateRect { top: 0, left: 0, width: 758, height: 1024 },
            waveform: 2,
            mode: 1,
        }
    );
    assert_eq!(
        refresh_region(3, 5, 7, 9),
        Some(Refresh {
            region: UpdateRect { top: 5, left: 3, width: 7, height: 9 },
            waveform: 257,
            mode: 0,
        })
    );
    assert_eq!(refresh_region(-1, i32::MIN, 1, 1).unwrap().region.left, u32::MAX);
    assert_eq!(refresh_region(-1, i32::MIN, 1, 1).unwrap().region.top, 0x8000_0000);
    assert_eq!(refresh_region(3, 5, 0, 9), None);
    assert_eq!(refresh_region(3, 5, 7, 0), None);
}

#[test]
fn update_requests_have_the_layout_of_the_kernel() {
    let refresh = refresh_region(3, 5, 7, 9).unwrap();
    assert_eq!(
        update_request(UpdateVariant::Legacy, &refresh, 11),
        vec![5, 3, 7, 9, 257, 0, 11, 0, 0, 0x1000, 0, 0, 0, 0, 0, 0, 0, 0]
    );
    assert_eq!(
        update_request(UpdateVariant::Rex, &refresh, 11),
        vec![5, 3, 7, 9, 257, 0, 11, 0x1000, 0, 0, 0, 0, 0, 0, 0, 0, 0, 0, 0, 0]
    );
    assert_eq!(
        update_request(UpdateVariant::Zelda, &refresh, 11),
        vec![5, 3, 7, 9, 257, 0, 11, 0x1000, 0, 0, 0, 0, 0, 0, 0, 0, 0, 0, 0, 0, 0, 0]
    );
}

#[test]
fn update_requests_are_of_the_size_that_the_kernel_reads() {
    let refresh = refresh_region(0, 0, 1, 1).unwrap();
    assert_eq!(update_request(UpdateVariant::Legacy, &refresh, 1).len() * 4, 72);
    assert_eq!(update_request(UpdateVariant::Rex, &refresh, 1).len() * 4, 80);
    assert_eq!(update_request(UpdateVariant::Zelda, &refresh, 1).len() * 4, 88);
}

#[test]
fn request_codes_tell_the_size_of_the_layout() {
    let refresh = refresh_region(0, 0, 1, 1).unwrap();
    let expected = [
        (UpdateVariant::Legacy, 0x4048_462e),
        (UpdateVariant::Rex, 0x4050_462e),
        (UpdateVariant::Zelda, 0x4058_462e),
    ];
    for (variant, code) in expected {
        assert_eq!(update_code(variant), code);
        let bytes = update_request(variant, &refresh, 1).len() * 4;
        assert_eq!((update_code(variant) >> 16) & 0x3fff, bytes as u32);
    }
}

#[test]
fn probing_remembers_the_layout_that_was_accepted() {
    let mut log = UpdateLog::new();
    assert_eq!(log.wait_request(), None);
    let first = log.begin_update();
    assert_eq!((first.variant, first.marker, first.probing), (UpdateVariant::Legacy, 1, true));
    let AfterAttempt::Retry(second) = log.conclude(first, false) else {
        panic!("the next layout is to be tried");
    };
    assert_eq!((second.variant, second.marker), (UpdateVariant::Rex, 1));
    assert_eq!(log.conclude(second, true), AfterAttempt::Accepted);
    assert_eq!(log.variant, Some(UpdateVariant::Rex));
    assert_eq!(log.wait_request(), Some(vec![1, 0]));
    let third = log.begin_update();
    assert_eq!((third.variant, third.marker, third.probing), (UpdateVariant::Rex, 2, false));
    assert_eq!(log.conclude(third, false), AfterAttempt::Refused);
    assert_eq!(log.variant, Some(UpdateVariant::Rex));
    assert_eq!(log.wait_request(), Some(vec![1, 0]));
    assert_eq!(log.take_update_marker(), 3);
}

#[test]
fn a_kernel_without_a_known_layout_gets_every_one() {
    let mut log = UpdateLog::new();
    let mut attempt = log.begin_update();
    let mut tried = vec![attempt.variant];
    while let AfterAttempt::Retry(next) = log.conclude(attempt, false) {
        attempt = next;
        tried.push(attempt.variant);
    }
    assert_eq!(tried, vec![UpdateVariant::Legacy, UpdateVariant::Rex, UpdateVariant::Zelda]);
    assert_eq!(log.conclude(attempt, false), AfterAttempt::NoLayoutAccepted);
    assert_eq!(log.variant, None);
    assert_eq!(log.last_marker, None);
    assert_eq!(log.next_marker, 2);
}

#[test]
fn markers_never_become_zero() {
    assert_eq!(next_update_marker(1), 2);
    assert_eq!(next_update_marker(u32::MAX - 1), u32::MAX);
    assert_eq!(next_update_marker(u32::MAX), 1);
}

#[test]
fn sleep_starts_after_a_positive_number_of_seconds() {
    assert_eq!(sleep_timeout(&None), 600);
    assert_eq!(sleep_timeout(&Some("30".to_string())), 30);
    assert_eq!(sleep_timeout(&Some("0".to_string())), 600);
    assert_eq!(sleep_timeout(&Some(" 30".to_string())), 600);
    assert_eq!(sleep_timeout(&Some("18446744073709551615".to_string())), u64::MAX);
    assert_eq!(sleep_timeout(&Some("18446744073709551616".to_string())), 600);
}

#[test]
fn requests_for_a_clean_panel_collapse() {
    let mut panel = Panel::new(RenderBufferMode::FullFrame);
    assert!(!panel.take_full_refresh());
    panel.request_full_refresh();
    panel.request_full_refresh();
    assert!(panel.take_full_refresh());
    assert!(!panel.take_full_refresh());
}

#[test]
fn sleeping_is_gray_and_waking_is_black_and_white() {
    let mut panel = Panel::new(RenderBufferMode::Scanline);
    panel.set_black_and_white(true);
    panel.enter_sleep();
    assert!(!panel.black_and_white);
    assert!(panel.take_full_refresh());
    panel.wake_from_sleep();
    assert!(panel.black_and_white);
    assert!(panel.take_full_refresh());
}

#[test]
fn a_change_of_the_mode_redraws_everything_once() {
    let mut panel = Panel::new(RenderBufferMode::FullFrame);
    assert!(!panel.render_in(RenderBufferMode::FullFrame));
    assert!(panel.render_in(RenderBufferMode::Scanline));
    assert!(!panel.render_in(RenderBufferMode::Scanline));
}
