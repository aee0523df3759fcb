//! The names of fields, states and methods: no two of them are the same.

use vstd::prelude::*;

verus! {

/// The names of the fields in tasks and answers differ: in length, or else in a character.
pub proof fn lemma_field_names()
    ensures
        "id"@.len() == 2,
        "contextId"@.len() == 9 && "contextId"@[2] == 'n',
        "status"@.len() == 6 && "status"@[3] == 't',
        "state"@.len() == 5 && "state"@[0] == 's' && "state"@[1] == 't',
        "artifacts"@.len() == 9 && "artifacts"@[2] == 't',
        "metadata"@.len() == 8 && "metadata"@[2] == 't',
        "parts"@.len() == 5 && "parts"@[0] == 'p' && "parts"@[1] == 'a',
        "index"@.len() == 5 && "index"@[0] == 'i' && "index"@[1] == 'n',
        "type"@.len() == 4 && "type"@[2] == 'p' && "type"@[0] == 't',
        "text"@.len() == 4 && "text"@[2] == 'x' && "text"@[0] == 't',
        "data"@.len() == 4 && "data"@[2] == 't' && "data"@[0] == 'd',
        "writeEnabled"@.len() == 12 && "writeEnabled"@[3] == 't',
        "sandboxMode"@.len() == 11 && "sandboxMode"@[0] == 's',
        "workingDirectory"@.len() == 16 && "workingDirectory"@[0] == 'w',
        "createdAt"@.len() == 9 && "createdAt"@[2] == 'e',
        "updatedAt"@.len() == 9 && "updatedAt"@[2] == 'd',
        "deprecatedTasksSendAliasUsed"@.len() == 28 && "deprecatedTasksSendAliasUsed"@[10] == 'T',
        "deprecatedSessionIdAliasUsed"@.len() == 28 && "deprecatedSessionIdAliasUsed"@[10] == 'S',
        "taskId"@.len() == 6 && "taskId"@[3] == 'k',
        "canceledPid"@.len() == 11 && "canceledPid"@[0] == 'c',
        "startedAt"@.len() == 9 && "startedAt"@[2] == 'a',
        "canceledAt"@.len() == 10 && "canceledAt"@[0] == 'c',
        "jsonrpc"@.len() == 7 && "jsonrpc"@[2] == 'o',
        "result"@.len() == 6 && "result"@[3] == 'u',
        "error"@.len() == 5 && "error"@[0] == 'e' && "error"@[1] == 'r',
        "code"@.len() == 4 && "code"@[2] == 'd' && "code"@[0] == 'c',
        "message"@.len() == 7 && "message"@[2] == 's',
        "method"@.len() == 6 && "method"@[3] == 'h',
        "params"@.len() == 6 && "params"@[3] == 'a',
        "resumeSessionId"@.len() == 15 && "resumeSessionId"@[0] == 'r',
        "sessions"@.len() == 8 && "sessions"@[2] == 's',
        "path"@.len() == 4 && "path"@[2] == 't' && "path"@[0] == 'p',
        "modifiedUnix"@.len() == 12 && "modifiedUnix"@[3] == 'i',
        "cwd"@.len() == 3 && "cwd"@[2] == 'd',
        "lastMessagePreview"@.len() == 18 && "lastMessagePreview"@[0] == 'l',
        "backendKind"@.len() == 11 && "backendKind"@[0] == 'b',
        "resumeSource"@.len() == 12 && "resumeSource"@[3] == 'u',
        "tasks"@.len() == 5 && "tasks"@[0] == 't' && "tasks"@[1] == 'a',
        "nextCursor"@.len() == 10 && "nextCursor"@[0] == 'n',
        "kind"@.len() == 4 && "kind"@[2] == 'n' && "kind"@[0] == 'k',
        "task"@.len() == 4 && "task"@[2] == 's' && "task"@[0] == 't',
        "final"@.len() == 5 && "final"@[0] == 'f' && "final"@[1] == 'i',
        "before"@.len() == 6 && "before"@[3] == 'o',
        "after"@.len() == 5 && "after"@[0] == 'a' && "after"@[1] == 'f',
        "gitHeadBefore"@.len() == 13,
        "gitStatusBefore"@.len() == 15 && "gitStatusBefore"@[0] == 'g',
        "gitHeadAfter"@.len() == 12 && "gitHeadAfter"@[3] == 'H',
        "gitStatusAfter"@.len() == 14,
        "gitDiffAfter"@.len() == 12 && "gitDiffAfter"@[3] == 'D',
        "gitDiffStatAfter"@.len() == 16 && "gitDiffStatAfter"@[0] == 'g',
        "exitCode"@.len() == 8 && "exitCode"@[2] == 'i',
        "agent"@.len() == 5 && "agent"@[0] == 'a' && "agent"@[1] == 'g',
        "version"@.len() == 7 && "version"@[2] == 'r',
        "url"@.len() == 3 && "url"@[2] == 'l',
        "name"@.len() == 4 && "name"@[2] == 'm' && "name"@[0] == 'n',
        "protocolVersion"@.len() == 15 && "protocolVersion"@[0] == 'p',
        "capabilities"@.len() == 12 && "capabilities"@[3] == 'a',
        "streaming"@.len() == 9 && "streaming"@[2] == 'r',
        "extensions"@.len() == 10 && "extensions"@[0] == 'e',
        "uri"@.len() == 3 && "uri"@[2] == 'i',
        "security"@.len() == 8 && "security"@[2] == 'c',
        "skills"@.len() == 6 && "skills"@[3] == 'l',
        "description"@.len() == 11 && "description"@[0] == 'd',
        "protocol"@.len() == 8 && "protocol"@[2] == 'o',
        "preferredTransport"@.len() == 18 && "preferredTransport"@[0] == 'p',
        "defaultInputModes"@.len() == 17 && "defaultInputModes"@[0] == 'd',
        "defaultOutputModes"@.len() == 18 && "defaultOutputModes"@[0] == 'd',
        "securitySchemes"@.len() == 15 && "securitySchemes"@[0] == 's',
        "interfaces"@.len() == 10 && "interfaces"@[0] == 'i',
        "pushNotifications"@.len() == 17 && "pushNotifications"@[0] == 'p',
        "multiTurn"@.len() == 9 && "multiTurn"@[2] == 'l',
        "structuredMetadata"@.len() == 18 && "structuredMetadata"@[0] == 's',
        "required"@.len() == 8 && "required"@[2] == 'q',
        "methods"@.len() == 7 && "methods"@[2] == 't',
        "bearerAuth"@.len() == 10 && "bearerAuth"@[0] == 'b',
        "scheme"@.len() == 6 && "scheme"@[3] == 'e',
{
    reveal_strlit("id");
    reveal_strlit("contextId");
    reveal_strlit("status");
    reveal_strlit("state");
    reveal_strlit("artifacts");
    reveal_strlit("metadata");
    reveal_strlit("parts");
    reveal_strlit("index");
    reveal_strlit("type");
    reveal_strlit("text");
    reveal_strlit("data");
    reveal_strlit("writeEnabled");
    reveal_strlit("sandboxMode");
    reveal_strlit("workingDirectory");
    reveal_strlit("createdAt");
    reveal_strlit("updatedAt");
    reveal_strlit("deprecatedTasksSendAliasUsed");
    reveal_strlit("deprecatedSessionIdAliasUsed");
    reveal_strlit("taskId");
    reveal_strlit("canceledPid");
    reveal_strlit("startedAt");
    reveal_strlit("canceledAt");
    reveal_strlit("jsonrpc");
    reveal_strlit("result");
    reveal_strlit("error");
    reveal_strlit("code");
    reveal_strlit("message");
    reveal_strlit("method");
    reveal_strlit("params");
    reveal_strlit("resumeSessionId");
    reveal_strlit("sessions");
    reveal_strlit("path");
    reveal_strlit("modifiedUnix");
    reveal_strlit("cwd");
    reveal_strlit("lastMessagePreview");
    reveal_strlit("backendKind");
    reveal_strlit("resumeSource");
    reveal_strlit("tasks");
    reveal_strlit("nextCursor");
    reveal_strlit("kind");
    reveal_strlit("task");
    reveal_strlit("final");
    reveal_strlit("before");
    reveal_strlit("after");
    reveal_strlit("gitHeadBefore");
    reveal_strlit("gitStatusBefore");
    reveal_strlit("gitHeadAfter");
    reveal_strlit("gitStatusAfter");
    reveal_strlit("gitDiffAfter");
    reveal_strlit("gitDiffStatAfter");
    reveal_strlit("exitCode");
    reveal_strlit("agent");
    reveal_strlit("version");
    reveal_strlit("url");
    reveal_strlit("name");
    reveal_strlit("protocolVersion");
    reveal_strlit("capabilities");
    reveal_strlit("streaming");
    reveal_strlit("extensions");
    reveal_strlit("uri");
    reveal_strlit("security");
    reveal_strlit("skills");
    reveal_strlit("description");
    reveal_strlit("protocol");
    reveal_strlit("preferredTransport");
    reveal_strlit("defaultInputModes");
    reveal_strlit("defaultOutputModes");
    reveal_strlit("securitySchemes");
    reveal_strlit("interfaces");
    reveal_strlit("pushNotifications");
    reveal_strlit("multiTurn");
    reveal_strlit("structuredMetadata");
    reveal_strlit("required");
    reveal_strlit("methods");
    reveal_strlit("bearerAuth");
    reveal_strlit("scheme");
    assert("id"@.len() == 2);
    assert("contextId"@.len() == 9 && "contextId"@[2] == 'n');
    assert("status"@.len() == 6 && "status"@[3] == 't');
    assert("state"@.len() == 5 && "state"@[0] == 's' && "state"@[1] == 't');
    assert("artifacts"@.len() == 9 && "artifacts"@[2] == 't');
    assert("metadata"@.len() == 8 && "metadata"@[2] == 't');
    assert("parts"@.len() == 5 && "parts"@[0] == 'p' && "parts"@[1] == 'a');
    assert("index"@.len() == 5 && "index"@[0] == 'i' && "index"@[1] == 'n');
    assert("type"@.len() == 4 && "type"@[2] == 'p' && "type"@[0] == 't');
    assert("text"@.len() == 4 && "text"@[2] == 'x' && "text"@[0] == 't');
    assert("data"@.len() == 4 && "data"@[2] == 't' && "data"@[0] == 'd');
    assert("writeEnabled"@.len() == 12 && "writeEnabled"@[3] == 't');
    assert("sandboxMode"@.len() == 11 && "sandboxMode"@[0] == 's');
    assert("workingDirectory"@.len() == 16 && "workingDirectory"@[0] == 'w');
    assert("createdAt"@.len() == 9 && "createdAt"@[2] == 'e');
    assert("updatedAt"@.len() == 9 && "updatedAt"@[2] == 'd');
    assert("deprecatedTasksSendAliasUsed"@.len() == 28 && "deprecatedTasksSendAliasUsed"@[10] == 'T');
    assert("deprecatedSessionIdAliasUsed"@.len() == 28 && "deprecatedSessionIdAliasUsed"@[10] == 'S');
    assert("taskId"@.len() == 6 && "taskId"@[3] == 'k');
    assert("canceledPid"@.len() == 11 && "canceledPid"@[0] == 'c');
    assert("startedAt"@.len() == 9 && "startedAt"@[2] == 'a');
    assert("canceledAt"@.len() == 10 && "canceledAt"@[0] == 'c');
    assert("jsonrpc"@.len() == 7 && "jsonrpc"@[2] == 'o');
    assert("result"@.len() == 6 && "result"@[3] == 'u');
    assert("error"@.len() == 5 && "error"@[0] == 'e' && "error"@[1] == 'r');
    assert("code"@.len() == 4 && "code"@[2] == 'd' && "code"@[0] == 'c');
    assert("message"@.len() == 7 && "message"@[2] == 's');
    assert("method"@.len() == 6 && "method"@[3] == 'h');
    assert("params"@.len() == 6 && "params"@[3] == 'a');
    assert("resumeSessionId"@.len() == 15 && "resumeSessionId"@[0] == 'r');
    assert("sessions"@.len() == 8 && "sessions"@[2] == 's');
    assert("path"@.len() == 4 && "path"@[2] == 't' && "path"@[0] == 'p');
    assert("modifiedUnix"@.len() == 12 && "modifiedUnix"@[3] == 'i');
    assert("cwd"@.len() == 3 && "cwd"@[2] == 'd');
    assert("lastMessagePreview"@.len() == 18 && "lastMessagePreview"@[0] == 'l');
    assert("backendKind"@.len() == 11 && "backendKind"@[0] == 'b');
    assert("resumeSource"@.len() == 12 && "resumeSource"@[3] == 'u');
    assert("tasks"@.len() == 5 && "tasks"@[0] == 't' && "tasks"@[1] == 'a');
    assert("nextCursor"@.len() == 10 && "nextCursor"@[0] == 'n');
    assert("kind"@.len() == 4 && "kind"@[2] == 'n' && "kind"@[0] == 'k');
    assert("task"@.len() == 4 && "task"@[2] == 's' && "task"@[0] == 't');
    assert("final"@.len() == 5 && "final"@[0] == 'f' && "final"@[1] == 'i');
    assert("before"@.len() == 6 && "before"@[3] == 'o');
    assert("after"@.len() == 5 && "after"@[0] == 'a' && "after"@[1] == 'f');
    assert("gitHeadBefore"@.len() == 13);
    assert("gitStatusBefore"@.len() == 15 && "gitStatusBefore"@[0] == 'g');
    assert("gitHeadAfter"@.len() == 12 && "gitHeadAfter"@[3] == 'H');
    assert("gitStatusAfter"@.len() == 14);
    assert("gitDiffAfter"@.len() == 12 && "gitDiffAfter"@[3] == 'D');
    assert("gitDiffStatAfter"@.len() == 16 && "gitDiffStatAfter"@[0] == 'g');
    assert("exitCode"@.len() == 8 && "exitCode"@[2] == 'i');
    assert("agent"@.len() == 5 && "agent"@[0] == 'a' && "agent"@[1] == 'g');
    assert("version"@.len() == 7 && "version"@[2] == 'r');
    assert("url"@.len() == 3 && "url"@[2] == 'l');
    assert("name"@.len() == 4 && "name"@[2] == 'm' && "name"@[0] == 'n');
    assert("protocolVersion"@.len() == 15 && "protocolVersion"@[0] == 'p');
    assert("capabilities"@.len() == 12 && "capabilities"@[3] == 'a');
    assert("streaming"@.len() == 9 && "streaming"@[2] == 'r');
    assert("extensions"@.len() == 10 && "extensions"@[0] == 'e');
    assert("uri"@.len() == 3 && "uri"@[2] == 'i');
    assert("security"@.len() == 8 && "security"@[2] == 'c');
    assert("skills"@.len() == 6 && "skills"@[3] == 'l');
    assert("description"@.len() == 11 && "description"@[0] == 'd');
    assert("protocol"@.len() == 8 && "protocol"@[2] == 'o');
    assert("preferredTransport"@.len() == 18 && "preferredTransport"@[0] == 'p');
    assert("defaultInputModes"@.len() == 17 && "defaultInputModes"@[0] == 'd');
    assert("defaultOutputModes"@.len() == 18 && "defaultOutputModes"@[0] == 'd');
    assert("securitySchemes"@.len() == 15 && "securitySchemes"@[0] == 's');
    assert("interfaces"@.len() == 10 && "interfaces"@[0] == 'i');
    assert("pushNotifications"@.len() == 17 && "pushNotifications"@[0] == 'p');
    assert("multiTurn"@.len() == 9 && "multiTurn"@[2] == 'l');
    assert("structuredMetadata"@.len() == 18 && "structuredMetadata"@[0] == 's');
    assert("required"@.len() == 8 && "required"@[2] == 'q');
    assert("methods"@.len() == 7 && "methods"@[2] == 't');
    assert("bearerAuth"@.len() == 10 && "bearerAuth"@[0] == 'b');
    assert("scheme"@.len() == 6 && "scheme"@[3] == 'e');
}

/// The names of the fields in messages to the app server differ.
pub proof fn lemma_native_names()
    ensures
        "id"@.len() == 2,
        "method"@.len() == 6 && "method"@[0] == 'm',
        "params"@.len() == 6 && "params"@[0] == 'p',
        "jsonrpc"@.len() == 7 && "jsonrpc"@[1] == 's',
        "threadId"@.len() == 8 && "threadId"@[0] == 't',
        "turnId"@.len() == 6 && "turnId"@[0] == 't',
        "input"@.len() == 5 && "input"@[0] == 'i',
        "type"@.len() == 4 && "type"@[1] == 'y',
        "text"@.len() == 4 && "text"@[1] == 'e',
        "text_elements"@.len() == 13 && "text_elements"@[0] == 't',
        "cwd"@.len() == 3,
        "approvalPolicy"@.len() == 14 && "approvalPolicy"@[0] == 'a',
        "sandbox"@.len() == 7 && "sandbox"@[1] == 'a',
        "excludeTurns"@.len() == 12 && "excludeTurns"@[0] == 'e',
        "experimentalRawEvents"@.len() == 21,
        "persistExtendedHistory"@.len() == 22,
        "config"@.len() == 6 && "config"@[0] == 'c',
        "sandbox_permissions"@.len() == 19,
        "limit"@.len() == 5 && "limit"@[0] == 'l',
        "sortKey"@.len() == 7 && "sortKey"@[1] == 'o',
        "sortDirection"@.len() == 13 && "sortDirection"@[0] == 's',
        "sourceKinds"@.len() == 11,
        "archived"@.len() == 8 && "archived"@[0] == 'a',
        "useStateDbOnly"@.len() == 14 && "useStateDbOnly"@[0] == 'u',
        "clientInfo"@.len() == 10,
        "capabilities"@.len() == 12 && "capabilities"@[0] == 'c',
        "experimentalApi"@.len() == 15,
        "optOutNotificationMethods"@.len() == 25,
        "name"@.len() == 4 && "name"@[1] == 'a',
        "title"@.len() == 5 && "title"@[0] == 't',
        "version"@.len() == 7 && "version"@[1] == 'e',
{
    reveal_strlit("id");
    reveal_strlit("method");
    reveal_strlit("params");
    reveal_strlit("jsonrpc");
    reveal_strlit("threadId");
    reveal_strlit("turnId");
    reveal_strlit("input");
    reveal_strlit("type");
    reveal_strlit("text");
    reveal_strlit("text_elements");
    reveal_strlit("cwd");
    reveal_strlit("approvalPolicy");
    reveal_strlit("sandbox");
    reveal_strlit("excludeTurns");
    reveal_strlit("experimentalRawEvents");
    reveal_strlit("persistExtendedHistory");
    reveal_strlit("config");
    reveal_strlit("sandbox_permissions");
    reveal_strlit("limit");
    reveal_strlit("sortKey");
    reveal_strlit("sortDirection");
    reveal_strlit("sourceKinds");
    reveal_strlit("archived");
    reveal_strlit("useStateDbOnly");
    reveal_strlit("clientInfo");
    reveal_strlit("capabilities");
    reveal_strlit("experimentalApi");
    reveal_strlit("optOutNotificationMethods");
    reveal_strlit("name");
    reveal_strlit("title");
    reveal_strlit("version");
    assert("id"@.len() == 2);
    assert("method"@.len() == 6 && "method"@[0] == 'm');
    assert("params"@.len() == 6 && "params"@[0] == 'p');
    assert("jsonrpc"@.len() == 7 && "jsonrpc"@[1] == 's');
    assert("threadId"@.len() == 8 && "threadId"@[0] == 't');
    assert("turnId"@.len() == 6 && "turnId"@[0] == 't');
    assert("input"@.len() == 5 && "input"@[0] == 'i');
    assert("type"@.len() == 4 && "type"@[1] == 'y');
    assert("text"@.len() == 4 && "text"@[1] == 'e');
    assert("text_elements"@.len() == 13 && "text_elements"@[0] == 't');
    assert("cwd"@.len() == 3);
    assert("approvalPolicy"@.len() == 14 && "approvalPolicy"@[0] == 'a');
    assert("sandbox"@.len() == 7 && "sandbox"@[1] == 'a');
    assert("excludeTurns"@.len() == 12 && "excludeTurns"@[0] == 'e');
    assert("experimentalRawEvents"@.len() == 21);
    assert("persistExtendedHistory"@.len() == 22);
    assert("config"@.len() == 6 && "config"@[0] == 'c');
    assert("sandbox_permissions"@.len() == 19);
    assert("limit"@.len() == 5 && "limit"@[0] == 'l');
    assert("sortKey"@.len() == 7 && "sortKey"@[1] == 'o');
    assert("sortDirection"@.len() == 13 && "sortDirection"@[0] == 's');
    assert("sourceKinds"@.len() == 11);
    assert("archived"@.len() == 8 && "archived"@[0] == 'a');
    assert("useStateDbOnly"@.len() == 14 && "useStateDbOnly"@[0] == 'u');
    assert("clientInfo"@.len() == 10);
    assert("capabilities"@.len() == 12 && "capabilities"@[0] == 'c');
    assert("experimentalApi"@.len() == 15);
    assert("optOutNotificationMethods"@.len() == 25);
    assert("name"@.len() == 4 && "name"@[1] == 'a');
    assert("title"@.len() == 5 && "title"@[0] == 't');
    assert("version"@.len() == 7 && "version"@[1] == 'e');
}

/// The names of the states of tasks differ.
pub proof fn lemma_state_names()
    ensures
        "working"@.len() == 7 && "working"@[0] == 'w',
        "completed"@.len() == 9,
        "failed"@.len() == 6,
        "canceled"@.len() == 8,
        "unknown"@.len() == 7 && "unknown"@[0] == 'u',
{
    reveal_strlit("working");
    reveal_strlit("completed");
    reveal_strlit("failed");
    reveal_strlit("canceled");
    reveal_strlit("unknown");
    assert("working"@.len() == 7 && "working"@[0] == 'w');
    assert("completed"@.len() == 9);
    assert("failed"@.len() == 6);
    assert("canceled"@.len() == 8);
    assert("unknown"@.len() == 7 && "unknown"@[0] == 'u');
}

/// The names of the methods differ.
pub proof fn lemma_method_names()
    ensures
        "message/send"@.len() == 12 && "message/send"@[0] == 'm',
        "message/stream"@.len() == 14,
        "tasks/send"@.len() == 10 && "tasks/send"@[6] == 's',
        "tasks/get"@.len() == 9,
        "tasks/list"@.len() == 10 && "tasks/list"@[6] == 'l',
        "tasks/cancel"@.len() == 12 && "tasks/cancel"@[0] == 't',
        "sessions/list"@.len() == 13,
        "sessions/resume"@.len() == 15,
{
    reveal_strlit("message/send");
    reveal_strlit("message/stream");
    reveal_strlit("tasks/send");
    reveal_strlit("tasks/get");
    reveal_strlit("tasks/list");
    reveal_strlit("tasks/cancel");
    reveal_strlit("sessions/list");
    reveal_strlit("sessions/resume");
    assert("message/send"@.len() == 12 && "message/send"@[0] == 'm');
    assert("message/stream"@.len() == 14);
    assert("tasks/send"@.len() == 10 && "tasks/send"@[6] == 's');
    assert("tasks/get"@.len() == 9);
    assert("tasks/list"@.len() == 10 && "tasks/list"@[6] == 'l');
    assert("tasks/cancel"@.len() == 12 && "tasks/cancel"@[0] == 't');
    assert("sessions/list"@.len() == 13);
    assert("sessions/resume"@.len() == 15);
}

} // verus!
