use render_gl::driver::COMPILE_STATUS;
use render_gl::driver::FRAGMENT_SHADER;
use render_gl::driver::INFO_LOG_LENGTH;
use render_gl::driver::LINK_STATUS;
use render_gl::driver::VERTEX_SHADER;

#[test]
fn stage_kinds_are_those_of_the_bindings() {
    assert_eq!(VERTEX_SHADER, gl::VERTEX_SHADER);
    assert_eq!(FRAGMENT_SHADER, gl::FRAGMENT_SHADER);
}

#[test]
fn parameter_names_are_those_of_the_bindings() {
    assert_eq!(COMPILE_STATUS, gl::COMPILE_STATUS);
    assert_eq!(LINK_STATUS, gl::LINK_STATUS);
    assert_eq!(INFO_LOG_LENGTH, gl::INFO_LOG_LENGTH);
}
