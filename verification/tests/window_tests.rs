use sel::window::{app_window_size, strut_plan, Rectangle, WebView, WinType, BAR_SIZE};

#[test]
fn win_type_default_is_top_level() {
    assert_eq!(WinType::default(), WinType::TopLevel);
}

#[test]
fn web_view_new_and_set_title() {
    let mut view = WebView::new();
    assert_eq!(view.title, "");
    assert_eq!(view.window_type, WinType::TopLevel);
    view.set_title("MyWV");
    assert_eq!(view.title, "MyWV");
    assert_eq!(view.window_type, WinType::TopLevel);
}

#[test]
fn strut_plan_on_primary_monitor() {
    let monitors = vec![
        Rectangle { x: 0, y: 0, width: 1920, height: 1080 },
        Rectangle { x: 1920, y: 0, width: 1280, height: 1024 },
    ];
    let plan = strut_plan(&monitors, 1);
    assert_eq!((plan.x, plan.y), (1920, 0));
    assert_eq!(plan.strut, vec![0, 0, BAR_SIZE, 0]);
    assert_eq!(plan.strut_partial, vec![0, 0, 32, 0, 0, 0, 0, 0, 0, 1279, 0, 0]);
    let plan = strut_plan(&monitors, 0);
    assert_eq!(plan.strut_partial[9], 1919);
}

#[test]
fn strut_plan_negative_width_wraps() {
    let monitors = vec![Rectangle { x: -5, y: 7, width: -1, height: 10 }];
    let plan = strut_plan(&monitors, 0);
    assert_eq!((plan.x, plan.y), (-5, 7));
    assert_eq!(plan.strut_partial[9], u64::MAX - 1);
}

#[test]
fn app_window_size_quarters() {
    assert_eq!(app_window_size(1920, 1080), (480, 810));
    assert_eq!(app_window_size(7, 7), (1, 3));
    assert_eq!(app_window_size(-7, -7), (-1, -3));
    assert_eq!(app_window_size(i32::MIN, i32::MAX), (i32::MIN / 4, i32::MAX / 4 * 3));
}
