# rhai

A small embedded scripting engine whose behaviour is proved with Verus.

A script is a sequence of statements separated by `;`:

* `let name = expr`, `let name`, `const name = expr` push a variable or a
  constant onto the scope;
* `name = expr` and `name op= expr` (for `+ - * / %`) assign to the last
  variable of that name;
* `fn name(a, b) { expr }` defines a script function (no `;` follows it);
  it can be called anywhere in the script, sees only its parameters and
  the constants of the scope the script was compiled with, and calls may
  nest at most 64 deep;
* any expression, whose value is the statement's value.

Expressions are integer (`i64`), boolean and string literals, `()`,
variables, calls `name(args)`, parentheses, unary `-` and `!`, and the
binary operators
`* / %`, `+ -`, `< <= > >=`, `== !=`, `&&`, `||` (from tightest to
loosest, grouping to the left). Integer arithmetic fails on overflow and
division by zero instead of wrapping or panicking; strings are joined with
`+` and compared by their characters, and `+` appends the text of any
other value to a string; values of different types are never equal.
Arrays come from the host: they are joined with `+`, compared with `==`
and `!=`, and `push` adds a value to one. A call goes to a script
function of that name and number of parameters, or else to the standard
functions `len` (of a string or an array), `abs`, `push`, or an operator
called by its name.

Layout of `src/`:

* `value.rs`, `error.rs`, `scope.rs`: values, errors, and the scope of variables;
* `token.rs`: the lexer; `parser.rs`: the parser; `ast.rs`: the syntax tree;
* `grammar.rs`: the grammar stated by printing, with the proof that the
  parser gives back exactly the tree that prints to its input;
* `ops.rs`, `func.rs`: operators, and the functions that can be called by name;
* `eval.rs`: the evaluator; `engine.rs`: compiling scripts;
* `api/eval.rs`: the public evaluation interface of the engine;
* `laws.rs`: properties that relate the operations to one another.
