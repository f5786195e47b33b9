use cmtk::parser::Parser;

fn check_reconstruction(name: &str, source: &str) {
    let parser = Parser::new(source);
    let parsed_tree = parser.parse();
    let reconstructed = parsed_tree.text();

    assert_eq!(source, reconstructed, "Reconstruction failed for file: {}", name);
}

const SAMPLES: [(&str, &str); 8] = [
    (
        "CMakeLists.txt",
        "cmake_minimum_required(VERSION 3.16)\nproject(Demo LANGUAGES C CXX)\n\n# Options\noption(DEMO_TESTS \"Build tests\" ON)\n\nadd_library(demo STATIC\n    src/a.cpp   # first\n    src/b.cpp\n)\ntarget_include_directories(demo PUBLIC ${CMAKE_CURRENT_SOURCE_DIR}/include)\n\nif (DEMO_TESTS)\n  enable_testing()\n  add_subdirectory(tests)\nendif ()\n",
    ),
    (
        "cmake/Functions.cmake",
        "function(demo_add name)\n  cmake_parse_arguments(ARG \"STATIC;SHARED\" \"OUTPUT\" \"SOURCES;DEPENDS\" ${ARGN})\n  foreach(src IN LISTS ARG_SOURCES)\n    message(STATUS \"source: ${src}\")\n  endforeach()\nendfunction()\n",
    ),
    (
        "cmake/Brackets.cmake",
        "set(doc [=[\nA bracket argument with ] and ]] inside\n]=])\n#[[ a bracket\ncomment ]] message(after)\n#[==[ nested ]] ]==]\n",
    ),
    (
        "cmake/Quoted.cmake",
        "set(msg \"line one\\nline \\\"two\\\" ${VAR}\")\nmessage(\"multi\nline string\")\nset(escaped a\\ b\\;c)\n",
    ),
    (
        "halide/CMakeLists.txt",
        "set_target_properties(Halide PROPERTIES\n                      VERSION ${Halide_VERSION}\n                      SOVERSION ${Halide_VERSION_MAJOR})\ninstall(TARGETS Halide EXPORT Halide_Targets\n        LIBRARY DESTINATION ${CMAKE_INSTALL_LIBDIR}\n        ARCHIVE DESTINATION ${CMAKE_INSTALL_LIBDIR})\n",
    ),
    (
        "cmake/Whitespace.cmake",
        "\t  \r\nmessage( a )\r\n\n\n   # trailing spaces   \nfoo()bar()\n  ",
    ),
    (
        "cmake/Unbalanced.cmake",
        "message(open (nested (deep) x\nset(x\n",
    ),
    ("cmake/Empty.cmake", ""),
];

#[test]
fn test_reconstruction() {
    for (name, source) in SAMPLES {
        check_reconstruction(name, source);
    }
}
