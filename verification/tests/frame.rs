use ze2::clipboard::Clipboard;
use ze2::frame::frame_input;
use ze2::helpers::{Point, Size};
use ze2::input::{kbmod, vk, Input, InputMouse, InputMouseState};

#[test]
fn events_become_frame_input() {
    let mut size = Size { width: 80, height: 24 };
    let mut clip = Clipboard::new();

    let r = frame_input(Some(Input::Resize(Size { width: 100, height: 30 })), &mut size, &mut clip);
    assert_eq!(size, Size { width: 100, height: 30 });
    assert!(r.text.is_none() && r.keyboard.is_none() && r.mouse.is_none());

    let r = frame_input(Some(Input::Text(b"a".to_vec())), &mut size, &mut clip);
    assert_eq!(r.text, Some(b"a".to_vec()));
    assert_eq!(r.keyboard, Some(0x41));
    let r = frame_input(Some(Input::Text(b"ab".to_vec())), &mut size, &mut clip);
    assert_eq!(r.keyboard, None);

    let r = frame_input(Some(Input::Paste(b"pasted".to_vec())), &mut size, &mut clip);
    assert_eq!(r.keyboard, Some(kbmod::CTRL | vk::V));
    assert_eq!(clip.read(), b"pasted");
    assert!(!clip.wants_host_sync());

    let r = frame_input(Some(Input::Keyboard(vk::TAB)), &mut size, &mut clip);
    assert_eq!(r.keyboard, Some(vk::TAB));

    let m = InputMouse {
        state: InputMouseState::Left,
        modifiers: 0,
        position: Point { x: 1, y: 2 },
        scroll: Point { x: 0, y: 0 },
        drag: false,
    };
    let r = frame_input(Some(Input::Mouse(m)), &mut size, &mut clip);
    assert_eq!(r.mouse, Some(m));
    let r = frame_input(None, &mut size, &mut clip);
    assert!(r.text.is_none() && r.keyboard.is_none() && r.mouse.is_none());
    assert_eq!(size, Size { width: 100, height: 30 });
}
