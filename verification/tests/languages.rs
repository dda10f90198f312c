use synapse::parser::ASTParser;
use synapse::types::ast::FileAnalysis;

fn check_test_python_parsing() {
        let code = r#"
import os
from datetime import datetime

class Helper:
    def greet(self):
        print("Hello")

def run():
    h = Helper()
    h.greet()
        "#;
        let path = "test.py";
        let FileAnalysis {
            nodes,
            edges: _,
            imports,
            calls,
        } = ASTParser::parse_file(path, code);

        assert!(!nodes.is_empty(), "Python nodes should not be empty");
        assert!(imports.iter().any(|i| i.path == "os"));
        assert!(imports.iter().any(|i| i.path == "datetime"));

        let class_node = nodes
            .iter()
            .find(|n| n.name == "Helper")
            .expect("Helper class not found");
        assert_eq!(class_node.kind, "Class");

        let greet_node = nodes
            .iter()
            .find(|n| n.name == "greet")
            .expect("greet method not found");
        assert_eq!(greet_node.kind, "Method");

        let run_node = nodes
            .iter()
            .find(|n| n.name == "run")
            .expect("run function not found");
        assert_eq!(run_node.kind, "Function");

        assert!(calls.iter().any(|c| c.name == "greet" && c.is_method));
    }

#[test]
fn python_test_python_parsing() {
    check_test_python_parsing();
}

#[test]
fn parser_test_python_parsing() {
    check_test_python_parsing();
}

fn check_test_go_parsing() {
        let code = r#"
            package main
            import (
                "fmt"
                "math"
            )
            type MyStruct struct {
                val int
            }
            type MyInterface interface {
                DoWork()
            }
            func (m *MyStruct) Process(x int) {
                fmt.Println(x)
            }
            func main() {
                var s MyStruct
                s.Process(10)
            }
        "#;
        let path = "test.go";
        let FileAnalysis {
            nodes,
            edges: _,
            imports,
            calls,
        } = ASTParser::parse_file(path, code);

        assert!(!nodes.is_empty(), "Go nodes should not be empty");
        assert!(imports.iter().any(|i| i.path == "fmt"));
        assert!(imports.iter().any(|i| i.path == "math"));

        let process_node = nodes
            .iter()
            .find(|n| n.name == "Process")
            .expect("Process method not found");
        assert_eq!(process_node.kind, "Method");

        let struct_node = nodes
            .iter()
            .find(|n| n.name == "MyStruct")
            .expect("MyStruct struct not found");
        assert_eq!(struct_node.kind, "Struct");

        assert!(calls.iter().any(|c| c.name == "Process" && c.is_method));
    }

#[test]
fn go_test_go_parsing() {
    check_test_go_parsing();
}

#[test]
fn parser_test_go_parsing() {
    check_test_go_parsing();
}

fn check_test_js_parsing() {
        let code = r#"
            import { something } from './module.js';
            const fs = require('fs');

            class User {
                login() {
                    console.log("logged in");
                }
            }
            function register() {
                doJSCall();
            }
        "#;
        let path = "test.js";
        let analysis = ASTParser::parse_file(path, code);

        assert_eq!(analysis.nodes.len(), 3);
        assert_eq!(analysis.nodes[0].name, "User");
        assert_eq!(analysis.nodes[0].kind, "Class");
        assert_eq!(analysis.nodes[1].name, "login");
        assert_eq!(analysis.nodes[1].kind, "Method");
        assert_eq!(analysis.nodes[2].name, "register");
        assert_eq!(analysis.nodes[2].kind, "Function");

        assert_eq!(analysis.edges.len(), 3);
        assert_eq!(analysis.edges[0].from_id, "test.js");
        assert_eq!(analysis.edges[0].to_id, "test.js::User");
        assert_eq!(analysis.edges[1].from_id, "test.js::User");
        assert_eq!(analysis.edges[1].to_id, "test.js::User::login");
        assert_eq!(analysis.edges[2].from_id, "test.js");
        assert_eq!(analysis.edges[2].to_id, "test.js::register");

        assert_eq!(analysis.imports.len(), 2);
        assert_eq!(analysis.imports[0].path, "./module.js");
        assert_eq!(analysis.imports[1].path, "fs");

        assert_eq!(analysis.calls.len(), 2);
        assert_eq!(analysis.calls[0].name, "log");
        assert!(analysis.calls[0].is_method);
        assert_eq!(analysis.calls[1].name, "doJSCall");
        assert!(!analysis.calls[1].is_method);
    }

#[test]
fn javascript_test_js_parsing() {
    check_test_js_parsing();
}

#[test]
fn parser_test_js_parsing() {
    check_test_js_parsing();
}

fn check_test_ts_parsing() {
        let code = r#"
            import { service } from './service';

            interface ILogger {
                log(msg: string): void;
            }
            @logger
            class FileLogger implements ILogger {
                log(msg: string) {
                    service.info(msg);
                }
            }
        "#;
        let path = "test.ts";
        let analysis = ASTParser::parse_file(path, code);

        assert_eq!(analysis.nodes.len(), 3);
        assert_eq!(analysis.nodes[0].name, "ILogger");
        assert_eq!(analysis.nodes[0].kind, "Interface");
        assert_eq!(analysis.nodes[1].name, "FileLogger");
        assert_eq!(analysis.nodes[1].kind, "Class");
        assert_eq!(analysis.nodes[2].name, "log");
        assert_eq!(analysis.nodes[2].kind, "Method");

        assert_eq!(analysis.edges.len(), 3);
        assert_eq!(analysis.edges[0].from_id, "test.ts");
        assert_eq!(analysis.edges[0].to_id, "test.ts::ILogger");
        assert_eq!(analysis.edges[1].from_id, "test.ts");
        assert_eq!(analysis.edges[1].to_id, "test.ts::FileLogger");
        assert_eq!(analysis.edges[2].from_id, "test.ts::FileLogger");
        assert_eq!(analysis.edges[2].to_id, "test.ts::FileLogger::log");

        assert_eq!(analysis.imports.len(), 1);
        assert_eq!(analysis.imports[0].path, "./service");

        assert_eq!(analysis.calls.len(), 1);
        assert_eq!(analysis.calls[0].name, "info");
        assert!(analysis.calls[0].is_method);
    }

#[test]
fn javascript_test_ts_parsing() {
    check_test_ts_parsing();
}

#[test]
fn parser_test_ts_parsing() {
    check_test_ts_parsing();
}

fn check_test_cpp_parsing() {
        let code = r#"
            #include "helper.h"
            namespace ns {
                class Runner {
                public:
                    void run() {}
                };
            }
            int main() {
                ns::Runner r;
                r.run();
                return 0;
            }
        "#;
        let path = "test.cpp";
        let FileAnalysis {
            nodes,
            edges: _,
            imports,
            calls,
        } = ASTParser::parse_file(path, code);

        assert!(!nodes.is_empty(), "C++ nodes should not be empty");
        assert!(imports.iter().any(|i| i.path == "helper.h"));

        let ns_node = nodes
            .iter()
            .find(|n| n.name == "ns")
            .expect("Namespace ns not found");
        assert_eq!(ns_node.kind, "Namespace");

        let runner_node = nodes
            .iter()
            .find(|n| n.name == "Runner")
            .expect("Runner class not found");
        assert_eq!(runner_node.kind, "Class");

        let run_node = nodes
            .iter()
            .find(|n| n.name == "run")
            .expect("run method not found");
        assert_eq!(run_node.kind, "Method");

        assert!(calls.iter().any(|c| c.name == "run" && c.is_method));
    }

#[test]
fn cpp_test_cpp_parsing() {
    check_test_cpp_parsing();
}

#[test]
fn parser_test_cpp_parsing() {
    check_test_cpp_parsing();
}

fn check_test_java_parsing() {
        let code = r#"
            import java.util.List;
            public class Application {
                public Application() {}
                public void start() {
                    System.out.println("Started");
                }
            }
        "#;
        let path = "test.java";
        let FileAnalysis {
            nodes,
            edges: _,
            imports,
            calls,
        } = ASTParser::parse_file(path, code);

        assert!(!nodes.is_empty(), "Java nodes should not be empty");
        assert!(imports.iter().any(|i| i.path == "java.util.List"));

        let class_node = nodes
            .iter()
            .find(|n| n.name == "Application")
            .expect("Application class not found");
        assert_eq!(class_node.kind, "Class");

        let method_node = nodes
            .iter()
            .find(|n| n.name == "start")
            .expect("start method not found");
        assert_eq!(method_node.kind, "Method");

        assert!(calls.iter().any(|c| c.name == "println" && c.is_method));
    }

#[test]
fn java_kotlin_test_java_parsing() {
    check_test_java_parsing();
}

#[test]
fn parser_test_java_parsing() {
    check_test_java_parsing();
}

fn check_test_kotlin_parsing() {
        let code = r#"
            import foo.bar.Baz
            class Service {
                fun execute() {
                    val x = Baz()
                    x.doSomething()
                }
            }
        "#;
        let path = "test.kt";
        let FileAnalysis {
            nodes,
            edges: _,
            imports,
            calls,
        } = ASTParser::parse_file(path, code);

        assert!(!nodes.is_empty(), "Kotlin nodes should not be empty");
        assert!(imports.iter().any(|i| i.path == "foo.bar.Baz"));

        let class_node = nodes
            .iter()
            .find(|n| n.name == "Service")
            .expect("Service class not found");
        assert_eq!(class_node.kind, "Class");

        let method_node = nodes
            .iter()
            .find(|n| n.name == "execute")
            .expect("execute method not found");
        assert_eq!(method_node.kind, "Method");

        assert!(calls.iter().any(|c| c.name == "doSomething" && c.is_method));
    }

#[test]
fn java_kotlin_test_kotlin_parsing() {
    check_test_kotlin_parsing();
}

#[test]
fn parser_test_kotlin_parsing() {
    check_test_kotlin_parsing();
}

#[test]
fn test_php_parsing() {
        let code = r#"
<?php
require 'config.php';
use App\User;

class UserController {
    public function index() {
        $this->validate($data);
        return User::all();
    }

    private function validate($data) {
        return true;
    }
}

interface CacheInterface {
    public function get($key);
}

trait Cacheable {
    public function cacheKey() {
        return 'key';
    }
}

function helper() {
    echo "help";
}
?>
        "#;
        let path = "test.php";
        let FileAnalysis {
            nodes,
            edges: _,
            imports,
            calls,
        } = ASTParser::parse_file(path, code);

        assert!(!nodes.is_empty(), "PHP nodes should not be empty");
        assert!(imports.iter().any(|i| i.path == "config.php"));
        assert!(imports.iter().any(|i| i.path == "App\\User"));

        let class_node = nodes
            .iter()
            .find(|n| n.name == "UserController")
            .expect("UserController class not found");
        assert_eq!(class_node.kind, "Class");

        let interface_node = nodes
            .iter()
            .find(|n| n.name == "CacheInterface")
            .expect("CacheInterface interface not found");
        assert_eq!(interface_node.kind, "Interface");

        let trait_node = nodes
            .iter()
            .find(|n| n.name == "Cacheable")
            .expect("Cacheable trait not found");
        assert_eq!(trait_node.kind, "Trait");

        let method_node = nodes
            .iter()
            .find(|n| n.name == "index")
            .expect("index method not found");
        assert_eq!(method_node.kind, "Method");

        let func_node = nodes
            .iter()
            .find(|n| n.name == "helper")
            .expect("helper function not found");
        assert_eq!(func_node.kind, "Function");

        // Call-graph regression assertions
        assert!(
            calls.iter().any(|c| c.name == "validate" && c.is_method),
            "member call $this->validate(...) should be captured as a method call, got: {:?}",
            calls
        );
        assert!(
            calls.iter().any(|c| c.name == "all" && c.is_method),
            "static call User::all() should be captured as a method call, got: {:?}",
            calls
        );
    }

#[test]
fn test_php_require_variants() {
        let code = r#"<?php
require 'simple.php';
require('parens.php');
include_once "double.php";
require_once('once.php');
require $variable_path;
?>
"#;
        let path = "test.php";
        let FileAnalysis { imports, .. } = ASTParser::parse_file(path, code);

        let paths: Vec<&str> = imports.iter().map(|i| i.path.as_str()).collect();
        assert!(paths.contains(&"simple.php"), "simple form: {:?}", paths);
        assert!(
            paths.contains(&"parens.php"),
            "parenthesized form: {:?}",
            paths
        );
        assert!(
            paths.contains(&"double.php"),
            "double-quoted form: {:?}",
            paths
        );
        assert!(
            paths.contains(&"once.php"),
            "require_once form: {:?}",
            paths
        );
        assert!(
            !paths.iter().any(|p| p.contains('$') || p.contains('(')),
            "non-literal path should not be captured: {:?}",
            paths
        );
    }

#[test]
fn test_ruby_parsing() {
        let code = r#"
require 'json'
require_relative './helpers'

class User
  def initialize(name)
    @name = name
  end

  def greet
    puts "Hello #{@name}"
  end
end

module Math
  def self.add(a, b)
    a + b
  end
end

def top_level_method
  Math.add(1, 2)
end
        "#;
        let path = "test.rb";
        let FileAnalysis {
            nodes,
            edges: _,
            imports,
            calls,
        } = ASTParser::parse_file(path, code);

        assert!(!nodes.is_empty(), "Ruby nodes should not be empty");
        assert!(imports.iter().any(|i| i.path == "json"));
        assert!(imports.iter().any(|i| i.path == "./helpers"));

        let class_node = nodes
            .iter()
            .find(|n| n.name == "User")
            .expect("User class not found");
        assert_eq!(class_node.kind, "Class");

        let module_node = nodes
            .iter()
            .find(|n| n.name == "Math")
            .expect("Math module not found");
        assert_eq!(module_node.kind, "Module");

        let method_node = nodes
            .iter()
            .find(|n| n.name == "initialize")
            .expect("initialize method not found");
        assert_eq!(method_node.kind, "Method");

        let func_node = nodes
            .iter()
            .find(|n| n.name == "top_level_method")
            .expect("top_level_method not found");
        assert_eq!(func_node.kind, "Method");

        let singleton_node = nodes
            .iter()
            .find(|n| n.name == "add")
            .expect("singleton method add not found");
        assert_eq!(singleton_node.kind, "Method");

        // Call-graph regression assertions: `puts` is a bare call (no receiver),
        // `Math.add` has a receiver so it should be flagged is_method=true.
        assert!(
            calls.iter().any(|c| c.name == "puts" && !c.is_method),
            "bare call puts should be captured with is_method=false, got: {:?}",
            calls
        );
        assert!(
            calls.iter().any(|c| c.name == "add" && c.is_method),
            "Math.add should be captured with is_method=true (has receiver), got: {:?}",
            calls
        );
    }

#[test]
fn test_swift_parsing() {
        let code = r#"
import Foundation
import UIKit

class ViewController: UIViewController {
    override func viewDidLoad() {
        super.viewDidLoad()
        loadData()
    }

    func loadData() {
        let data = fetchData()
        process(data)
    }
}

struct User {
    let name: String
    let email: String
}

enum Color {
    case red
    case green
    case blue
}

protocol Cacheable {
    func cacheKey() -> String
}

extension User {
    func displayName() -> String {
        return name
    }
}

func topLevelFunction() {
    let user = User(name: "test", email: "test@test.com")
    print(user.name)
}
        "#;
        let path = "test.swift";
        let FileAnalysis {
            nodes,
            edges: _,
            imports,
            calls,
        } = ASTParser::parse_file(path, code);

        assert!(!nodes.is_empty(), "Swift nodes should not be empty");
        assert!(imports.iter().any(|i| i.path == "Foundation"));
        assert!(imports.iter().any(|i| i.path == "UIKit"));

        let class_node = nodes
            .iter()
            .find(|n| n.name == "ViewController")
            .expect("ViewController class not found");
        assert_eq!(class_node.kind, "Class");

        let struct_node = nodes
            .iter()
            .find(|n| n.name == "User")
            .expect("User struct not found");
        assert_eq!(struct_node.kind, "Struct");

        let enum_node = nodes
            .iter()
            .find(|n| n.name == "Color")
            .expect("Color enum not found");
        assert_eq!(enum_node.kind, "Enum");

        let protocol_node = nodes
            .iter()
            .find(|n| n.name == "Cacheable")
            .expect("Cacheable protocol not found");
        assert_eq!(protocol_node.kind, "Protocol");

        let method_node = nodes
            .iter()
            .find(|n| n.name == "viewDidLoad")
            .expect("viewDidLoad method not found");
        assert_eq!(method_node.kind, "Method");

        let func_node = nodes
            .iter()
            .find(|n| n.name == "topLevelFunction")
            .expect("topLevelFunction not found");
        assert_eq!(func_node.kind, "Function");

        let ext_node = nodes
            .iter()
            .find(|n| n.name == "User" && n.kind == "Extension")
            .expect("User extension not found");
        assert_eq!(ext_node.kind, "Extension");

        let ext_method = nodes
            .iter()
            .find(|n| n.name == "displayName")
            .expect("displayName method not found in extension");
        assert_eq!(ext_method.kind, "Method");

        // Call-graph regression assertions
        // simple_identifier calls (no receiver): is_method=false
        assert!(
            calls.iter().any(|c| c.name == "loadData" && !c.is_method),
            "loadData() should be captured as a non-method call, got: {:?}",
            calls
        );
        assert!(
            calls.iter().any(|c| c.name == "fetchData" && !c.is_method),
            "fetchData() should be captured as a non-method call, got: {:?}",
            calls
        );
        // navigation_expression call (super.viewDidLoad): is_method=true
        assert!(
            calls.iter().any(|c| c.name == "viewDidLoad" && c.is_method),
            "super.viewDidLoad() should be captured with is_method=true, got: {:?}",
            calls
        );
        // Property access (user.name) must NOT be captured as a call —
        // it appears as an argument to print() but should not be promoted.
        assert!(
            !calls.iter().any(|c| c.name == "name" && c.is_method),
            "property access user.name should not be captured as a method call, got: {:?}",
            calls
        );
    }
