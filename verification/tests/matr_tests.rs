use chargrid::matr::Matr;
use chargrid::Error;

#[test]
fn test_plot_line() {
    let mut mat = Matr::new(5, 5, Some('b')).unwrap();
    mat.draw_line(0, 0, 3, 3, 'x').unwrap();

    let result = mat.get_str();
    let expect = String::from("xbbb\nbxbb\nbbxb\nbbbx\nbbbb\n");

    assert_eq!(result, expect);
}

#[test]
fn test_plot_line2() {
    let mut mat = Matr::new(5, 5, Some('b')).unwrap();
    mat.draw_line(1, 0, 3, 0, 'x').unwrap();

    let result = mat.get_str();
    let expect = String::from("bxxx\nbbbb\nbbbb\nbbbb\nbbbb\n");

    assert_eq!(result, expect);
}

#[test]
fn test_plot_line3() {
    let mut mat = Matr::new(5, 5, Some('b')).unwrap();
    mat.draw_line(1, 0, 2, 3, 'x').unwrap();

    let result = mat.get_str();
    let expect = String::from("bxbb\nbxbb\nbbxb\nbbxb\nbbbb\n");

    assert_eq!(result, expect);
}

#[test]
fn test_plot_line_reversed() {
    let mut mat = Matr::new(5, 5, Some('b')).unwrap();
    mat.draw_line(3, 3, 0, 0, 'x').unwrap();

    let result = mat.get_str();
    let expect = String::from("xbbb\nbxbb\nbbxb\nbbbx\nbbbb\n");

    assert_eq!(result, expect);
}

#[test]
fn test_plot_line_single_point() {
    let mut mat = Matr::new(5, 5, Some('b')).unwrap();
    mat.draw_line(2, 2, 2, 2, 'x').unwrap();

    let result = mat.get_str();
    let expect = String::from("bbbb\nbbbb\nbbxb\nbbbb\nbbbb\n");

    assert_eq!(result, expect);
}

#[test]
fn test_plot_line_descending_ties() {
    // x runs 2, 1.5, 1, 0.5, 0: the half-way positions round away from
    // zero as positions, so they stay at the higher column
    let mut mat = Matr::new(5, 6, Some('b')).unwrap();
    mat.draw_line(2, 0, 0, 4, 'x').unwrap();

    let result = mat.get_str();
    let expect = String::from("bbxb\nbbxb\nbxbb\nbxbb\nxbbb\nbbbb\n");

    assert_eq!(result, expect);
}

#[test]
fn test_plot_line_descending_quarters() {
    // x runs 1, 0.75, 0.5, 0.25, 0: only the exact half rounds up
    let mut mat = Matr::new(5, 5, Some('b')).unwrap();
    mat.draw_line(1, 0, 0, 4, 'x').unwrap();

    let result = mat.get_str();
    let expect = String::from("bxbb\nbxbb\nbxbb\nxbbb\nxbbb\n");

    assert_eq!(result, expect);
}

#[test]
fn test_plot_line_out_of_bounds() {
    let mut mat = Matr::new(5, 5, Some('b')).unwrap();

    // the endpoint sits on the terminator column, so the whole call
    // fails and nothing is drawn
    assert_eq!(mat.draw_line(0, 0, 4, 4, 'x'), Err(Error::OutOfBounds));
    assert_eq!(mat.get_str(), String::from("bbbb\nbbbb\nbbbb\nbbbb\nbbbb\n"));

    assert_eq!(mat.draw_line(-1, 0, 2, 0, 'x'), Err(Error::OutOfBounds));
    assert_eq!(mat.get_str(), String::from("bbbb\nbbbb\nbbbb\nbbbb\nbbbb\n"));
}

#[test]
fn matr_test_new() {
    let mat = Matr::new(4, 4, Some('a')).unwrap();
    let result = mat.get_str();
    let expect = String::from("aaa\naaa\naaa\naaa\n");

    assert_eq!(result, expect);
}

#[test]
fn matr_test_new2() {
    let mat = Matr::new(4, 4, None).unwrap();
    let result = mat.get_str();
    let expect = String::from("xxx\nxxx\nxxx\nxxx\n");

    assert_eq!(result, expect);
}

#[test]
fn matr_test_new3() {
    let mat = Matr::new(4, 7, None).unwrap();
    let result = mat.get_str();
    let expect = String::from("xxx\nxxx\nxxx\nxxx\nxxx\nxxx\nxxx\n");

    assert_eq!(result, expect);
}

#[test]
fn matr_test_new4() {
    let mat = Matr::new(7, 4, None).unwrap();
    let result = mat.get_str();
    let expect = String::from("xxxxxx\nxxxxxx\nxxxxxx\nxxxxxx\n");

    assert_eq!(result, expect);
}

#[test]
fn matr_test_new7() {
    assert!(matches!(Matr::new(0, 0, None), Err(Error::InvalidDimensions)));
}

#[test]
fn matr_test_fill() {
    let mut mat = Matr::new(5, 5, None).unwrap();
    mat.fill('b');

    let result = mat.get_str();
    let expect = String::from("bbbb\nbbbb\nbbbb\nbbbb\nbbbb\n");

    assert_eq!(result, expect);
}

#[test]
fn matr_test_fill2() {
    let mut mat = Matr::new(6, 5, None).unwrap();
    mat.fill(' ');

    let result = mat.get_str();
    let expect = String::from("     \n     \n     \n     \n     \n");

    assert_eq!(result, expect);
}

#[test]
fn matr_test_draw() {
    let mut mat = Matr::new(4, 4, None).unwrap();
    mat.draw_point(1, 2, 'a').unwrap();

    let result = mat.get_str();
    let expect = String::from("xxx\nxxx\nxax\nxxx\n");

    assert_eq!(result, expect);
}

#[test]
fn matr_test_draw2() {
    let mut mat = Matr::new(4, 4, None).unwrap();

    // one past the bottom row
    assert_eq!(mat.draw_point(1, 4, 'a'), Err(Error::OutOfBounds));
    // on the terminator column
    assert_eq!(mat.draw_point(3, 1, 'a'), Err(Error::OutOfBounds));

    let result = mat.get_str();
    let expect = String::from("xxx\nxxx\nxxx\nxxx\n");

    assert_eq!(result, expect);
}

#[test]
fn matr_test_fill_draw() {
    let mut mat = Matr::new(6, 6, None).unwrap();

    mat.draw_point(3, 4, 'z').unwrap();
    mat.fill('c');

    let st1 = mat.get_str();
    let expect1 = String::from("ccccc\nccccc\nccccc\nccccc\nccccc\nccccc\n");

    mat.draw_point(0, 0, 'l').unwrap();
    mat.draw_point(0, 0, 'b').unwrap();
    mat.draw_point(1, 0, 'c').unwrap();
    mat.draw_point(1, 1, 'a').unwrap();

    let st2 = mat.get_str();
    let expect2 = String::from("bcccc\ncaccc\nccccc\nccccc\nccccc\nccccc\n");

    assert_eq!(st1, expect1);
    assert_eq!(st2, expect2);
}

#[test]
fn matr_test_width_one() {
    let mut mat = Matr::new(1, 3, None).unwrap();
    assert_eq!(mat.get_str(), String::from("\n\n\n"));

    // a one-wide grid has no visible column at all
    assert_eq!(mat.draw_point(0, 0, 'a'), Err(Error::OutOfBounds));
}

#[test]
fn matr_test_height_one() {
    let mat = Matr::new(3, 1, None).unwrap();
    assert_eq!(mat.get_str(), String::from("xx\n"));
}
