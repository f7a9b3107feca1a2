use snip_and_autosave::convert::dib_to_image;
use snip_and_autosave::directories::find_existing_parent;
use snip_and_autosave::extensions::{image_content_is_equal, newest_file_in_dir, ImageExtensions};
use snip_and_autosave::heuristics::{clipboard_owned_by_snip_and_sketch, process_name_matches, CF_DIB};
use snip_and_autosave::naming::{screenshot_file_name, Timestamp};
use snip_and_autosave::pipeline::{
    open_clipboard_step, CaptureAction, CaptureEvent, CapturePipeline, Debouncer, IgnoreReason, OpenStep, Stage,
    DEBOUNCE_TIME_MS, OPEN_RETRIES, OPEN_RETRY_INTERVAL_MS, SETTLE_DELAY_MS, WM_CLIPBOARDUPDATE,
};
use snip_and_autosave::convert::ConversionError;
use snip_and_autosave::settings::{Paths, Program, Settings};
use snip_and_autosave::DecodedImage;

fn gradient(width: u32, height: u32) -> Vec<u8> {
    let mut samples = Vec::new();
    for y in 0..height {
        for x in 0..width {
            samples.extend_from_slice(&[(x * 3) as u8, (y * 5) as u8, (x + y) as u8]);
        }
    }
    samples
}

fn image(width: u32, height: u32, samples: Vec<u8>) -> DecodedImage {
    DecodedImage::from_samples(width, height, samples).unwrap()
}

/// A top-left-origin, RGB-ordered 32-bit bit-field bitmap of `samples`.
fn rgb_top_down_dib(width: u32, height: u32, samples: &[u8]) -> Vec<u8> {
    let mut b = Vec::new();
    b.extend_from_slice(&40u32.to_le_bytes());
    b.extend_from_slice(&(width as i32).to_le_bytes());
    b.extend_from_slice(&(-(height as i32)).to_le_bytes());
    b.extend_from_slice(&1u16.to_le_bytes());
    b.extend_from_slice(&32u16.to_le_bytes());
    b.extend_from_slice(&3u32.to_le_bytes());
    b.extend_from_slice(&(4 * width * height).to_le_bytes());
    b.extend_from_slice(&[0u8; 16]);
    b.extend_from_slice(&0x0000_00ffu32.to_le_bytes());
    b.extend_from_slice(&0x0000_ff00u32.to_le_bytes());
    b.extend_from_slice(&0x00ff_0000u32.to_le_bytes());
    for px in samples.chunks(3) {
        b.extend_from_slice(&[px[0], px[1], px[2], 0xff]);
    }
    b
}

#[test]
fn equal_images_are_equal() {
    let a = image(8, 6, gradient(8, 6));
    let b = image(8, 6, gradient(8, 6));
    assert!(image_content_is_equal(&a, &b));
    assert!(a.is_same_as_last_screenshot(Some(&b)));
}

#[test]
fn one_differing_pixel_makes_images_differ() {
    let a = image(8, 6, gradient(8, 6));
    let n = 8 * 6 * 3;
    for at in [0, n / 2, n - 1] {
        let mut samples = gradient(8, 6);
        samples[at] ^= 0x01;
        let b = image(8, 6, samples);
        assert!(!image_content_is_equal(&a, &b), "sample {}", at);
        assert!(!a.is_same_as_last_screenshot(Some(&b)));
    }
}

#[test]
fn images_of_other_sizes_differ() {
    let a = image(6, 8, gradient(6, 8));
    let b = image(8, 6, gradient(6, 8));
    assert!(!image_content_is_equal(&a, &b));
}

#[test]
fn no_last_screenshot_is_no_duplicate() {
    let a = image(2, 2, gradient(2, 2));
    assert_eq!(newest_file_in_dir(&[]), None);
    assert!(!a.is_same_as_last_screenshot(None));
}

#[test]
fn newest_file_is_the_latest_created() {
    assert_eq!(newest_file_in_dir(&[5, 9, 3]), Some(1));
    assert_eq!(newest_file_in_dir(&[7, 9, 9]), Some(1));
    assert_eq!(newest_file_in_dir(&[0, 0]), None);
    assert_eq!(newest_file_in_dir(&[0, 1]), Some(1));
}

#[test]
fn header_check_needs_size_and_rgb8() {
    let a = image(4, 3, gradient(4, 3));
    assert!(a.matches_header(4, 3, true));
    assert!(!a.matches_header(4, 3, false));
    assert!(!a.matches_header(3, 4, true));
}

#[test]
fn debounce_drops_events_within_the_window() {
    let mut debouncer = Debouncer::new(1000);
    assert!(!debouncer.debounce_message(WM_CLIPBOARDUPDATE, 0));
    assert!(debouncer.debounce_message(WM_CLIPBOARDUPDATE, 200));
}

#[test]
fn debounce_passes_events_after_the_window() {
    let mut debouncer = Debouncer::new(1000);
    assert!(!debouncer.debounce_message(WM_CLIPBOARDUPDATE, 0));
    assert!(!debouncer.debounce_message(WM_CLIPBOARDUPDATE, 1500));
}

#[test]
fn debounce_window_slides_with_every_event() {
    let mut debouncer = Debouncer::new(DEBOUNCE_TIME_MS);
    assert_eq!(debouncer.window(), 1000);
    assert!(!debouncer.debounce_message(1, 0));
    assert!(debouncer.debounce_message(1, 800));
    assert!(debouncer.debounce_message(1, 1600));
    assert!(debouncer.debounce_message(1, 2600));
    assert!(!debouncer.debounce_message(1, 3601));
    assert!(!debouncer.debounce_message(2, 3602));
    assert!(debouncer.debounce_message(1, 10));
}

#[test]
fn clipboard_open_is_retried_then_given_up() {
    assert_eq!(open_clipboard_step(0, true), OpenStep::Opened);
    assert_eq!(open_clipboard_step(0, false), OpenStep::RetryAfter(OPEN_RETRY_INTERVAL_MS));
    assert_eq!(open_clipboard_step(4, false), OpenStep::RetryAfter(50));
    assert_eq!(open_clipboard_step(OPEN_RETRIES, false), OpenStep::GiveUp);
    assert_eq!(open_clipboard_step(5, true), OpenStep::Opened);
}

#[test]
fn process_name_is_matched_on_the_final_segment() {
    assert!(process_name_matches("\\Device\\HarddiskVolume1\\Windows\\System32\\svchost.exe"));
    assert!(process_name_matches("C:\\WINDOWS\\SYSTEM32\\SvcHost.EXE"));
    assert!(process_name_matches("svchost.exe"));
    assert!(!process_name_matches("C:\\Windows\\notsvchost.exe"));
    assert!(!process_name_matches("C:\\Windows\\svchost.exe\\other.exe"));
    assert!(!process_name_matches(""));
}

#[test]
fn heuristic_ands_its_signals() {
    let path = "\\Device\\HarddiskVolume1\\Windows\\System32\\svchost.exe";
    assert!(clipboard_owned_by_snip_and_sketch(path, Some(CF_DIB), true));
    assert!(!clipboard_owned_by_snip_and_sketch(path, None, true));
    assert!(clipboard_owned_by_snip_and_sketch(path, None, false));
    assert!(!clipboard_owned_by_snip_and_sketch("C:\\Windows\\explorer.exe", Some(CF_DIB), true));
}

#[test]
fn screenshot_names_carry_the_time() {
    let t = Timestamp { year: 2021, month: 7, day: 8, hour: 9, minute: 34, second: 5 };
    assert_eq!(screenshot_file_name(&t).unwrap(), "Screenshot_20210708_093405.png");
    let early = Timestamp { year: 987, month: 12, day: 31, hour: 23, minute: 59, second: 59 };
    assert_eq!(screenshot_file_name(&early).unwrap(), "Screenshot_09871231_235959.png");
    let leap = Timestamp { year: 2020, month: 2, day: 29, hour: 0, minute: 0, second: 0 };
    assert_eq!(screenshot_file_name(&leap).unwrap(), "Screenshot_20200229_000000.png");
}

#[test]
fn invalid_times_give_no_name() {
    let t = Timestamp { year: 2021, month: 2, day: 29, hour: 0, minute: 0, second: 0 };
    assert!(screenshot_file_name(&t).is_none());
    let t = Timestamp { year: 2021, month: 13, day: 1, hour: 0, minute: 0, second: 0 };
    assert!(screenshot_file_name(&t).is_none());
    let t = Timestamp { year: 2021, month: 1, day: 1, hour: 24, minute: 0, second: 0 };
    assert!(screenshot_file_name(&t).is_none());
    assert!(!t.is_valid());
}

#[test]
fn settings_are_read_and_written_through_callbacks() {
    let mut settings = Settings {
        program: Program::default(),
        paths: Paths { screenshots: String::from("C:\\Pictures\\Screenshots") },
    };
    let mut seen = String::new();
    settings.read(|s| seen = s.paths.screenshots.clone());
    assert_eq!(seen, "C:\\Pictures\\Screenshots");
    assert!(!settings.program.auto_start);
    settings.write(|mut s| {
        s.program.auto_start = true;
        s.paths.screenshots = String::from("D:\\Shots");
        s
    });
    assert!(settings.program.auto_start);
    assert_eq!(settings.paths.screenshots, "D:\\Shots");
}

#[test]
fn nearest_existing_parent_is_found() {
    assert_eq!(find_existing_parent(&[]), None);
    assert_eq!(find_existing_parent(&[true, true]), Some(0));
    assert_eq!(find_existing_parent(&[false, false, true, true]), Some(2));
    assert_eq!(find_existing_parent(&[false, false]), Some(1));
}

const OWNER: &str = "\\Device\\HarddiskVolume3\\Windows\\System32\\svchost.exe";

/// One clipboard event through the capture pipeline, with the clipboard
/// owned by the screenshot tool and holding `dib`, and `archive` standing
/// for the saved screenshots, newest last. Saves into `archive` what the
/// pipeline hands over, unless it repeats the latest screenshot.
fn capture(pipeline: &mut CapturePipeline, now: u64, dib: &[u8], archive: &mut Vec<DecodedImage>) {
    let mut action = pipeline.step(CaptureEvent::ClipboardUpdated(now));
    loop {
        let event = match action {
            CaptureAction::QueryOwner => CaptureEvent::OwnerIdentified(Some(String::from(OWNER)), Some(CF_DIB)),
            CaptureAction::Settle(ms) => {
                assert_eq!(ms, SETTLE_DELAY_MS);
                CaptureEvent::Settled
            }
            CaptureAction::OpenClipboard(_) => CaptureEvent::OpenAttempted(true),
            CaptureAction::ReadBitmap => CaptureEvent::BitmapRead(Some(dib.to_vec())),
            CaptureAction::Persist(image) => {
                let created: Vec<u128> = (1..=archive.len() as u128).collect();
                let last = newest_file_in_dir(&created).map(|i| &archive[i]);
                let duplicate = match last {
                    Some(last) => {
                        let (w, h) = last.dimensions();
                        image.matches_header(w, h, true) && image.is_same_as_last_screenshot(Some(last))
                    }
                    None => image.is_same_as_last_screenshot(None),
                };
                if !duplicate {
                    archive.push(image);
                }
                return;
            }
            CaptureAction::Ignore(_) | CaptureAction::Reject(_) => return,
        };
        action = pipeline.step(event);
    }
}

#[test]
fn capture_into_an_empty_archive_saves_one_image() {
    let samples = gradient(64, 64);
    let dib = rgb_top_down_dib(64, 64, &samples);
    let mut pipeline = CapturePipeline::new(DEBOUNCE_TIME_MS, true);
    let mut archive = Vec::new();
    capture(&mut pipeline, 0, &dib, &mut archive);
    assert_eq!(archive.len(), 1);
    assert_eq!(archive[0].dimensions(), (64, 64));
    assert_eq!(archive[0].samples(), &samples[..]);
}

#[test]
fn capture_of_the_latest_screenshot_saves_nothing() {
    let samples = gradient(64, 64);
    let dib = rgb_top_down_dib(64, 64, &samples);
    let mut pipeline = CapturePipeline::new(DEBOUNCE_TIME_MS, true);
    let mut archive = vec![image(64, 64, gradient(64, 64))];
    capture(&mut pipeline, 0, &dib, &mut archive);
    assert_eq!(archive.len(), 1);
}

#[test]
fn capture_of_a_changed_screenshot_is_saved() {
    let dib = rgb_top_down_dib(64, 64, &gradient(64, 64));
    let mut samples = gradient(64, 64);
    samples[3 * (64 * 64) - 1] ^= 0x80;
    let mut pipeline = CapturePipeline::new(DEBOUNCE_TIME_MS, true);
    let mut archive = vec![image(64, 64, samples)];
    capture(&mut pipeline, 0, &dib, &mut archive);
    assert_eq!(archive.len(), 2);
}

#[test]
fn second_capture_within_the_window_is_dropped() {
    let mut pipeline = CapturePipeline::new(DEBOUNCE_TIME_MS, true);
    assert!(matches!(pipeline.step(CaptureEvent::ClipboardUpdated(0)), CaptureAction::QueryOwner));
    assert_eq!(*pipeline.stage(), Stage::CheckingOwner);
    assert!(matches!(
        pipeline.step(CaptureEvent::ClipboardUpdated(200)),
        CaptureAction::Ignore(IgnoreReason::Debounced)
    ));
    assert_eq!(*pipeline.stage(), Stage::Idle);
    assert!(matches!(pipeline.step(CaptureEvent::ClipboardUpdated(1500)), CaptureAction::QueryOwner));
}

#[test]
fn untrusted_or_unknown_owner_ends_the_run() {
    let mut pipeline = CapturePipeline::new(DEBOUNCE_TIME_MS, true);
    pipeline.step(CaptureEvent::ClipboardUpdated(0));
    let other = Some(String::from("C:\\Windows\\explorer.exe"));
    assert!(matches!(
        pipeline.step(CaptureEvent::OwnerIdentified(other, Some(CF_DIB))),
        CaptureAction::Ignore(IgnoreReason::NotTrusted)
    ));
    pipeline.step(CaptureEvent::ClipboardUpdated(5000));
    assert!(matches!(
        pipeline.step(CaptureEvent::OwnerIdentified(None, Some(CF_DIB))),
        CaptureAction::Ignore(IgnoreReason::NotTrusted)
    ));
    pipeline.step(CaptureEvent::ClipboardUpdated(10000));
    assert!(matches!(
        pipeline.step(CaptureEvent::OwnerIdentified(Some(String::from(OWNER)), None)),
        CaptureAction::Ignore(IgnoreReason::NotTrusted)
    ));
}

#[test]
fn format_signal_can_be_left_out() {
    let mut pipeline = CapturePipeline::new(DEBOUNCE_TIME_MS, false);
    pipeline.step(CaptureEvent::ClipboardUpdated(0));
    assert!(matches!(
        pipeline.step(CaptureEvent::OwnerIdentified(Some(String::from(OWNER)), None)),
        CaptureAction::Settle(100)
    ));
    assert_eq!(*pipeline.stage(), Stage::Settling);
}

#[test]
fn busy_clipboard_is_retried_five_times() {
    let mut pipeline = CapturePipeline::new(DEBOUNCE_TIME_MS, true);
    pipeline.step(CaptureEvent::ClipboardUpdated(0));
    pipeline.step(CaptureEvent::OwnerIdentified(Some(String::from(OWNER)), Some(CF_DIB)));
    assert!(matches!(pipeline.step(CaptureEvent::Settled), CaptureAction::OpenClipboard(0)));
    for attempt in 0..5 {
        assert_eq!(*pipeline.stage(), Stage::Opening(attempt));
        assert!(matches!(pipeline.step(CaptureEvent::OpenAttempted(false)), CaptureAction::OpenClipboard(50)));
    }
    assert!(matches!(
        pipeline.step(CaptureEvent::OpenAttempted(false)),
        CaptureAction::Ignore(IgnoreReason::ClipboardBusy)
    ));
    assert_eq!(*pipeline.stage(), Stage::Idle);
}

#[test]
fn undecodable_bitmap_is_rejected() {
    let mut pipeline = CapturePipeline::new(DEBOUNCE_TIME_MS, true);
    pipeline.step(CaptureEvent::ClipboardUpdated(0));
    pipeline.step(CaptureEvent::OwnerIdentified(Some(String::from(OWNER)), Some(CF_DIB)));
    pipeline.step(CaptureEvent::Settled);
    assert!(matches!(pipeline.step(CaptureEvent::OpenAttempted(true)), CaptureAction::ReadBitmap));
    assert!(matches!(
        pipeline.step(CaptureEvent::BitmapRead(None)),
        CaptureAction::Reject(ConversionError::NullPointer)
    ));
}

#[test]
fn events_out_of_order_end_the_run() {
    let mut pipeline = CapturePipeline::new(DEBOUNCE_TIME_MS, true);
    assert!(matches!(pipeline.step(CaptureEvent::Settled), CaptureAction::Ignore(IgnoreReason::Unexpected)));
    assert!(matches!(
        pipeline.step(CaptureEvent::BitmapRead(Some(vec![1, 2, 3]))),
        CaptureAction::Ignore(IgnoreReason::Unexpected)
    ));
    assert_eq!(*pipeline.stage(), Stage::Idle);
}
