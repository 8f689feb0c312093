use splix::GridUpdate;
use splix::PaneId;
use splix::Renderer;
use splix::SessionId;
use splix::Window;
use splix::WindowId;

fn setup_renderer(width: usize, height: usize) -> Renderer {
    Renderer::new(width, height)
}

fn setup_window_with_pane_data(lines: Vec<Vec<char>>) -> Window {
    let window_id = WindowId::new(0, SessionId::new(0));
    let mut window = Window::new(window_id);
    let pane_id = PaneId::new(0, window_id);
    let mut first = true;
    for line in lines {
        if !first {
            window.update_pane(pane_id, &GridUpdate::NewLine);
        }
        first = false;
        for c in line {
            window.update_pane(pane_id, &GridUpdate::AppendChar(c));
        }
    }
    window
}

fn render_to_string(renderer: &mut Renderer, window: &Window) -> String {
    renderer.begin_frame();
    renderer.draw_window(window);
    renderer.end_frame();
    renderer.take_output().into_iter().collect()
}

#[test]
fn test_initial_render() {
    let mut renderer = setup_renderer(5, 1);
    let window = setup_window_with_pane_data(vec![vec!['H', 'e', 'l', 'l', 'o']]);

    let output = render_to_string(&mut renderer, &window);
    assert_eq!(output, "\u{1b}[H\u{1b}[1;1HHello");
}

#[test]
fn test_diff_rendering_no_change() {
    let mut renderer = setup_renderer(5, 1);
    let window = setup_window_with_pane_data(vec![vec!['H', 'e', 'l', 'l', 'o']]);

    // Frame 1
    render_to_string(&mut renderer, &window);

    // Frame 2 (no data change)
    let output = render_to_string(&mut renderer, &window);
    assert_eq!(output, "\u{1b}[H"); // Only the home sequence
}

#[test]
fn test_diff_rendering_single_char_change() {
    let mut renderer = setup_renderer(5, 1);
    let mut lines = vec![vec!['H', 'e', 'l', 'l', 'o']];
    let window1 = setup_window_with_pane_data(lines.clone());

    // Frame 1
    render_to_string(&mut renderer, &window1);

    // "Hello" -> "Hollo" (char at index 1 changes 'e' -> 'o')
    lines[0][1] = 'o';
    let window2 = setup_window_with_pane_data(lines);

    // Frame 2
    let output = render_to_string(&mut renderer, &window2);
    assert_eq!(output, "\u{1b}[H\u{1b}[1;2Ho");
}

#[test]
fn test_diff_rendering_multiple_consecutive_chars_change() {
    let mut renderer = setup_renderer(5, 1);
    let mut lines = vec![vec!['H', 'e', 'l', 'l', 'o']];
    let window1 = setup_window_with_pane_data(lines.clone());

    // Frame 1
    render_to_string(&mut renderer, &window1);

    // "Hello" -> "Hiyao" (ell -> iya)
    lines[0][1] = 'i';
    lines[0][2] = 'y';
    lines[0][3] = 'a';
    let window2 = setup_window_with_pane_data(lines);

    // Frame 2
    let output = render_to_string(&mut renderer, &window2);
    assert_eq!(output, "\u{1b}[H\u{1b}[1;2Hiya");
}

#[test]
fn test_draw_pane_clipping_horizontal() {
    let mut renderer = setup_renderer(3, 1); // Screen width is 3
    let window = setup_window_with_pane_data(vec![vec!['H', 'e', 'l', 'l', 'o']]);

    let output = render_to_string(&mut renderer, &window);
    assert_eq!(output, "\u{1b}[H\u{1b}[1;1HHel");
}

#[test]
fn test_draw_pane_clipping_vertical() {
    let mut renderer = setup_renderer(5, 1); // Screen height is 1
    let window = setup_window_with_pane_data(vec![
        vec!['H', 'e', 'l', 'l', 'o'],
        vec!['W', 'o', 'r', 'l', 'd'],
    ]);

    let output = render_to_string(&mut renderer, &window);
    assert_eq!(output, "\u{1b}[H\u{1b}[1;1HHello"); // Only the first line
}

/// A miniature terminal: applies cursor-home, cursor-position and
/// literal characters to a screen buffer, the way a real terminal would.
fn replay_onto(screen: &mut Vec<char>, width: usize, output: &str) {
    let chars: Vec<char> = output.chars().collect();
    let mut i = 0;
    let mut cursor = 0usize;
    while i < chars.len() {
        if chars[i] == '\u{1b}' {
            assert_eq!(chars[i + 1], '[');
            i += 2;
            if chars[i] == 'H' {
                cursor = 0;
                i += 1;
            } else {
                let mut row = 0usize;
                while chars[i].is_ascii_digit() {
                    row = row * 10 + (chars[i] as usize - '0' as usize);
                    i += 1;
                }
                assert_eq!(chars[i], ';');
                i += 1;
                let mut col = 0usize;
                while chars[i].is_ascii_digit() {
                    col = col * 10 + (chars[i] as usize - '0' as usize);
                    i += 1;
                }
                assert_eq!(chars[i], 'H');
                i += 1;
                cursor = (row - 1) * width + (col - 1);
            }
        } else {
            screen[cursor] = chars[i];
            cursor += 1;
            i += 1;
        }
    }
}

#[test]
fn empty_grid_emits_only_the_home_sequence() {
    let mut renderer = setup_renderer(5, 2);
    let window = setup_window_with_pane_data(vec![]);

    let output = render_to_string(&mut renderer, &window);
    assert_eq!(output, "\u{1b}[H");
}

#[test]
fn replaying_emitted_frames_reproduces_the_grid() {
    // Diff correctness, end to end: replay both frames' emissions onto a
    // blank terminal model and compare with the second frame's content.
    let mut renderer = setup_renderer(5, 1);
    let window1 = setup_window_with_pane_data(vec![vec!['H', 'e', 'l', 'l', 'o']]);
    let frame1 = render_to_string(&mut renderer, &window1);

    let window2 = setup_window_with_pane_data(vec![vec!['H', 'o', 'l', 'l', 'o']]);
    let frame2 = render_to_string(&mut renderer, &window2);

    let mut screen = vec![' '; 5];
    replay_onto(&mut screen, 5, &frame1);
    replay_onto(&mut screen, 5, &frame2);
    assert_eq!(screen, vec!['H', 'o', 'l', 'l', 'o']);
}
