//! What a new TypeScript project is set up with.

use crate::templates::Templates;
use vstd::prelude::*;

verus! {

/// The system prompt for generating code.
pub const CREATE_PROMPT: &'static str = "# TypeScript Code Generation System Prompt\n\nYou are a code generation assistant specializing in TypeScript. Your task is to generate high-quality, type-safe TypeScript code based on the provided context and instructions.\n\n## Guidelines\n\n1. **Output Format**: Output ONLY the code, wrapped in a markdown code fence with the `typescript` language tag. Do not include explanations, comments about what you're doing, or any other text outside the code fence.\n\n2. **Line Limit**: Your output must not exceed 900 lines of code. If the task requires more, focus on the most critical functionality.\n\n3. **Code Style**: Follow TypeScript best practices and patterns from the context files provided. Match the existing conventions for:\n   - Naming (camelCase for variables/functions, PascalCase for types/classes)\n   - Formatting and indentation\n   - Error handling patterns (try/catch, Result types, error classes)\n   - Documentation style (JSDoc comments)\n\n4. **Imports**: Include all necessary imports at the top of the file. Prefer named imports over default imports.\n\n5. **Type Safety**: \n   - Use explicit type annotations for function parameters and return types\n   - Avoid `any` type - use `unknown` if type is truly unknown\n   - Use strict null checks - handle `null` and `undefined` explicitly\n   - Leverage union types, generics, and utility types appropriately\n\n6. **Documentation**: Add JSDoc comments for all exported items (functions, classes, interfaces, types).\n\n7. **Error Handling**: Use proper error handling with try/catch. Consider creating custom error classes for domain errors.\n\n8. **Async/Await**: Use async/await for asynchronous operations. Handle Promise rejections properly.\n\n9. **Module Format**: Use ESM (ES Modules) syntax with `import`/`export`.\n\n## Response Format\n\nYour response should be ONLY a code fence containing the complete file content:\n\n";

/// The system prompt for verifying code.
pub const VERIFY_PROMPT: &'static str = "# TypeScript Code Verification System Prompt\n\nYou are a TypeScript code review assistant. Your task is to verify that the generated code meets the requirements and follows TypeScript best practices.\n\n## Verification Checklist\n\n1. **Syntax**: Is the code syntactically correct TypeScript?\n2. **Completeness**: Does the code implement all requirements from the instructions?\n3. **Correctness**: Does the logic appear correct? Are there any obvious bugs?\n4. **Type Safety**: \n   - Are types properly annotated?\n   - Is `any` avoided?\n   - Are null/undefined handled correctly?\n5. **Error Handling**: Are errors handled appropriately with try/catch?\n6. **Async Operations**: Are Promises and async/await used correctly?\n7. **Style Consistency**: Does the code follow TypeScript idioms and match context file patterns?\n8. **Documentation**: Are exported items documented with JSDoc?\n9. **Imports**: Are all imports valid and used?\n\n## Response Format\n\nYour response MUST start with either:\n\n- `PASS` - if the code meets all requirements\n- `FAIL: <reason>` - if the code has issues\n\nExamples:\n- `PASS`\n- `PASS - Code looks good, all requirements met.`\n- `FAIL: Missing error handling for API call`\n- `FAIL: The getUser method is not implemented`\n- `FAIL: Using 'any' type instead of proper typing`\n- `FAIL: Missing null check for optional parameter`\n\nBe strict but fair. Minor style issues should not cause a failure if the code is functionally correct.\n";

/// The system prompt for generating tests.
pub const TEST_PROMPT: &'static str = "# TypeScript Test Generation System Prompt\n\nYou are a test generation assistant specializing in TypeScript. Your task is to generate comprehensive tests based on the provided requirements BEFORE the implementation exists.\n\n## TDD Approach\n\nYou are generating tests first (Test-Driven Development). The implementation does not exist yet. Your tests should:\n1. Define the expected behavior based on requirements\n2. Cover happy path scenarios\n3. Cover edge cases and error conditions\n4. Be runnable once the implementation is created\n\n## Guidelines\n\n1. **Output Format**: Output ONLY the test code, wrapped in a markdown code fence with the `typescript` language tag.\n\n2. **Test Framework**: Use Jest/Vitest patterns with describe/it/expect:\n   ```typescript\n   import { functionName } from './module';\n\n   describe('functionName', () => {\n     it('should do something specific', () => {\n       expect(functionName(input)).toBe(expected);\n     });\n   });\n   ```\n\n3. **Test Coverage**: Generate tests for:\n   - All functions/methods mentioned in the requirements\n   - Input validation and edge cases\n   - Error handling scenarios (thrown errors, rejected promises)\n   - Boundary conditions\n   - Async operations\n\n4. **Assertions**: Use clear Jest/Vitest matchers:\n   - `expect(x).toBe(y)` for primitives\n   - `expect(x).toEqual(y)` for objects/arrays\n   - `expect(x).toBeTruthy()` / `expect(x).toBeFalsy()`\n   - `expect(() => fn()).toThrow()`\n   - `await expect(asyncFn()).resolves.toBe(x)`\n   - `await expect(asyncFn()).rejects.toThrow()`\n\n5. **Test Names**: Use descriptive names:\n   - `it('returns greeting with provided name')`\n   - `it('handles empty string input')`\n   - `it('throws error when dividing by zero')`\n\n6. **Async Tests**: For async functions, use async/await:\n   ```typescript\n   it('fetches user data', async () => {\n     const user = await getUser(1);\n     expect(user.name).toBe('Alice');\n   });\n   ```\n\n## Response Format\n\nYour response should be ONLY a code fence containing the complete test file:\n\n";

/// How to write job files for the project.
pub const MANAGER_INSTRUCTION: &'static str = "# Manager Instructions for Creating TypeScript Job Files\n\nThis file explains how to create job files for a TypeScript WorkSplit project.\n\n## Job File Format\n\nEach job file uses YAML frontmatter followed by markdown instructions:\n\n```yaml\n---\ncontext_files:\n  - src/models/user.ts\noutput_dir: src/services/\noutput_file: userService.ts\n---\n```\n\n## Frontmatter Fields\n\n- `context_files`: List of TypeScript files to include as context (max 2, each under 1000 lines)\n- `output_dir`: Directory where the output `.ts` file should be created\n- `output_file`: Name of the TypeScript file to generate\n- `test_file`: Name of the test file to generate (for TDD workflow)\n\n## TypeScript-Specific Best Practices\n\n### 1. Keep Jobs Small\nEach job should generate at most 900 lines of TypeScript code. Break larger features into multiple jobs.\n\n### 2. Choose Context Files Wisely\nInclude files that:\n- Define interfaces/types the generated code will use\n- Show class patterns to follow\n- Contain utility functions to use\n- Show module patterns to match\n\n### 3. Write Clear Instructions\n- Be specific about what to implement\n- List required methods/functions explicitly\n- Specify error handling expectations\n- Mention any generics or type constraints needed\n- Reference interfaces to implement\n\n### 4. Naming Convention\nUse descriptive job IDs with category prefix:\n- `auth_001_user_model.md`\n- `auth_002_session_service.md`\n- `api_001_user_endpoints.md`\n\n### 5. Module Structure\nConsider module organization:\n- `index.ts` files for barrel exports\n- Feature modules grouped logically\n- Types in separate `.types.ts` files if complex\n\n## TDD Workflow\n\nTo enable Test-Driven Development, add the `test_file` field:\n\n```yaml\n---\ncontext_files: []\noutput_dir: src/\noutput_file: calculator.ts\ntest_file: calculator.test.ts\n---\n```\n\nWhen `test_file` is specified:\n1. Tests are generated FIRST based on requirements\n2. Implementation is then generated to pass tests\n3. Implementation is verified against requirements\n";

/// The configuration file that a new project gets.
pub const CONFIG: &'static str = "# WorkSplit Configuration\n\n[project]\nlanguage = \"typescript\"\n\n[ollama]\nurl = \"http://localhost:11434\"\nmodel = \"qwen-32k:latest\"\ntimeout_seconds = 300\n\n[limits]\nmax_output_lines = 900\nmax_context_lines = 1000\nmax_context_files = 2\n\n[behavior]\nstream_output = true\ncreate_output_dirs = true\n\n[build]\nbuild_command = \"npm run build\"\ntest_command = \"npm test\"\nverify_build = false\nverify_tests = false\n";

/// The job file that a new project gets as an example.
pub const EXAMPLE_JOB: &'static str = "---\ncontext_files: []\noutput_dir: src/\noutput_file: hello.ts\n---\n\n# Create Hello World Module\n\n## Requirements\n- Create a simple TypeScript module with a greeting function\n- The function should accept a name parameter\n- Return a formatted greeting string\n- Use proper TypeScript types\n\n## Functions to Implement\n\n1. `greet(name: string): string` - Returns \"Hello, {name}!\"\n2. `greetWithTime(name: string, morning: boolean): string` - Returns appropriate greeting based on time\n\n## Example Usage\n\n```typescript\nconst greeting = greet(\"World\");\n// Returns: \"Hello, World!\"\n\nconst morningGreeting = greetWithTime(\"Alice\", true);\n// Returns: \"Good morning, Alice!\"\n```\n\n## Type Definitions\n\nConsider exporting these types:\n```typescript\nexport interface GreetingOptions {\n  name: string;\n  formal?: boolean;\n}\n```\n";

/// The job file that a new project gets as an example of a job with a test.
pub const TDD_EXAMPLE_JOB: &'static str = "---\ncontext_files: []\noutput_dir: src/\noutput_file: calculator.ts\ntest_file: calculator.test.ts\n---\n\n# Create Calculator Module (TDD Example)\n\nThis job demonstrates TDD workflow - tests will be generated first!\n\n## Requirements\n- Create a calculator module with basic arithmetic operations\n- Support add, subtract, multiply, divide functions\n- Handle division by zero by throwing an error\n- Use proper TypeScript types\n\n## Functions to Implement\n\n1. `add(a: number, b: number): number` - Returns sum\n2. `subtract(a: number, b: number): number` - Returns difference\n3. `multiply(a: number, b: number): number` - Returns product\n4. `divide(a: number, b: number): number` - Returns quotient, throws on division by zero\n\n## Expected Behavior\n\n```typescript\nadd(2, 3)        // returns 5\nsubtract(5, 3)   // returns 2\nmultiply(4, 5)   // returns 20\ndivide(10, 2)    // returns 5\ndivide(10, 0)    // throws Error(\"Division by zero\")\n```\n\n## Type Definitions\n\nConsider creating:\n```typescript\nexport type Operation = 'add' | 'subtract' | 'multiply' | 'divide';\n\nexport interface CalculatorResult {\n  operation: Operation;\n  operands: [number, number];\n  result: number;\n}\n```\n";

/// What a new TypeScript project is set up with.
pub fn templates() -> (r: Templates)
    ensures
        r.create_prompt@ == CREATE_PROMPT@,
        r.verify_prompt@ == VERIFY_PROMPT@,
        r.test_prompt@ == TEST_PROMPT@,
        r.manager_instruction@ == MANAGER_INSTRUCTION@,
        r.config@ == CONFIG@,
        r.example_job@ == EXAMPLE_JOB@,
        r.tdd_example_job@ == TDD_EXAMPLE_JOB@,
{
    Templates {
        create_prompt: CREATE_PROMPT,
        verify_prompt: VERIFY_PROMPT,
        test_prompt: TEST_PROMPT,
        manager_instruction: MANAGER_INSTRUCTION,
        config: CONFIG,
        example_job: EXAMPLE_JOB,
        tdd_example_job: TDD_EXAMPLE_JOB,
    }
}

} // verus!
