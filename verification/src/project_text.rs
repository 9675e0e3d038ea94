//! The fixed text of the README and the ignore file of a generated project.

use vstd::prelude::*;

verus! {

/// The README from the program's name to its list of instructions.
pub const README_INTRO: &'static str = " Solana Program\n\nGenerated by [SolScript](https://github.com/example/solscript) compiler.\n\n## Overview\n\nThis is an Anchor-based Solana program with a TypeScript client.\n\n## Project Structure\n\n```\n.\n├── programs/\n│   └── solscript_program/\n│       └── src/\n│           ├── lib.rs          # Main program entry\n│           ├── state.rs        # Account state definitions\n│           ├── instructions.rs # Instruction contexts\n│           ├── error.rs        # Custom errors\n│           └── events.rs       # Event definitions\n├── app/\n│   └── client.ts               # TypeScript client\n├── tests/\n│   └── program.test.ts         # Anchor tests\n├── target/\n│   └── idl/\n│       └── program.json        # Anchor IDL\n├── Anchor.toml\n├── Cargo.toml\n└── package.json\n```\n\n## Available Instructions\n\n";

/// The README from the list of instructions to the name of the client.
pub const README_USAGE: &'static str = "\n\n## Getting Started\n\n### Prerequisites\n\n- [Rust](https://www.rust-lang.org/tools/install)\n- [Solana CLI](https://docs.solana.com/cli/install-solana-cli-tools)\n- [Anchor](https://www.anchor-lang.com/docs/installation)\n- [Node.js](https://nodejs.org/)\n\n### Build\n\n```bash\nanchor build\n```\n\n### Test\n\n```bash\nanchor test\n```\n\n### Deploy\n\n```bash\nanchor deploy\n```\n\n## Usage\n\nSee `app/client.ts` for the TypeScript client implementation.\n\n```typescript\nimport { ";

/// The README between the two mentions of the client.
pub const README_CLIENT: &'static str = "Client } from './app/client';\n\n// Initialize client with provider\nconst client = new ";

/// The end of the README.
pub const README_END: &'static str = "Client(provider);\n\n// Call instructions...\n```\n";

/// The ignore file of a generated project.
pub const GITIGNORE: &'static str = "# Anchor\ntarget/\n.anchor/\nnode_modules/\n\n# Rust\nCargo.lock\n**/*.rs.bk\n\n# IDE\n.idea/\n.vscode/\n*.swp\n*.swo\n\n# OS\n.DS_Store\nThumbs.db\n\n# Solana\ntest-ledger/\n.env\n\n# TypeScript\ndist/\n*.js\n*.d.ts\n*.map\n!anchor.js\n";

} // verus!
