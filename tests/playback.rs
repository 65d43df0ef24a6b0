use term_video::loader::{load_frames, LoadError};
use term_video::playback::{clear_sequence, frame_delay, playback_plan, Action};
use term_video::session::prepare_session;

fn png(width: u32, height: u32, luma: u8) -> Vec<u8> {
    let gray = image::GrayImage::from_raw(width, height, vec![luma; (width * height) as usize])
        .expect("buffer size");
    let mut out = std::io::Cursor::new(Vec::new());
    gray.write_to(&mut out, image::ImageOutputFormat::Png)
        .expect("png encoding");
    out.into_inner()
}

fn clears(steps: &[Action]) -> usize {
    steps.iter().filter(|s| **s == Action::Clear).count()
}

fn slept(steps: &[Action]) -> u64 {
    steps
        .iter()
        .map(|s| match s {
            Action::Sleep(d) => *d,
            _ => 0,
        })
        .sum()
}

#[test]
fn load_frames_keeps_file_order() {
    let files = vec![png(2, 1, 0), png(2, 1, 100), png(2, 1, 255)];
    let frames = load_frames(&files, 2, 1).expect("all decode");
    assert_eq!(frames, vec!["  \n".to_string(), "::\n".to_string(), "@@\n".to_string()]);
}

#[test]
fn load_frames_decodes_luma() {
    let frames = load_frames(&vec![png(3, 2, 200)], 3, 2).expect("decodes");
    assert_eq!(frames, vec!["###\n###\n".to_string()]);
}

#[test]
fn load_frames_fails_on_undecodable_file() {
    let files = vec![png(2, 2, 0), b"not an image".to_vec(), png(2, 2, 0)];
    assert_eq!(load_frames(&files, 2, 2), Err(LoadError::Decode));
}

#[test]
fn load_frames_fails_on_small_image() {
    let files = vec![png(2, 2, 0), png(1, 2, 0)];
    assert_eq!(load_frames(&files, 2, 2), Err(LoadError::Decode));
}

#[test]
fn load_frames_of_no_files() {
    assert_eq!(load_frames(&Vec::new(), 2, 2), Ok(Vec::new()));
}

#[test]
fn frame_delay_in_microseconds() {
    assert_eq!(frame_delay(30), 33333);
    assert_eq!(frame_delay(10), 100000);
    assert_eq!(frame_delay(1), 1000000);
    assert_eq!(frame_delay(7), 142857);
}

#[test]
fn playback_plan_at_thirty_fps() {
    let steps = playback_plan(4, 30);
    assert_eq!(steps.len(), 13);
    assert_eq!(steps[0], Action::Clear);
    assert_eq!(clears(&steps), 5);
    assert_eq!(slept(&steps), 4 * 33333);
    for i in 0..4 {
        assert_eq!(steps[3 * i + 1], Action::Show(i));
        assert_eq!(steps[3 * i + 2], Action::Sleep(33333));
        assert_eq!(steps[3 * i + 3], Action::Clear);
    }
}

#[test]
fn playback_plan_of_no_frames() {
    assert_eq!(playback_plan(0, 30), vec![Action::Clear]);
}

#[test]
fn clear_sequence_is_ansi_erase() {
    assert_eq!(clear_sequence(), "\u{1b}[2J");
}

#[test]
fn session_of_two_black_frames() {
    let files = vec![png(2, 2, 0), png(2, 2, 0)];
    let session = prepare_session(&files, 2, 2, 10).expect("loads");
    assert_eq!(session.frames, vec!["  \n  \n".to_string(), "  \n  \n".to_string()]);
    assert_eq!(
        session.steps,
        vec![
            Action::Clear,
            Action::Show(0),
            Action::Sleep(100000),
            Action::Clear,
            Action::Show(1),
            Action::Sleep(100000),
            Action::Clear,
        ]
    );
}

#[test]
fn session_fails_without_partial_frames() {
    let files = vec![png(2, 2, 0), vec![0u8; 16]];
    assert!(matches!(prepare_session(&files, 2, 2, 10), Err(LoadError::Decode)));
}
